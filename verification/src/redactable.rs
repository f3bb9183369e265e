//! The interface of a value that can be shown with its sensitive parts
//! redacted, and the value of a registered type as one such.

use crate::formatter::{FormatError, Formatter};
use crate::value::FieldValue;
use vstd::prelude::*;

verus! {

pub trait Redactable {
    /// The text of this value with all sensitive data redacted.
    spec fn redacted(&self) -> Seq<char>;

    /// Returns this value formatted as a string with all sensitive data
    /// redacted.
    fn redact(&self) -> (out: String)
        ensures
            out@ == self.redacted(),
    {
        let mut buffer = String::new();
        self.redact_into(&mut buffer);
        buffer
    }

    /// Writes this value, formatted as a string with all sensitive data
    /// redacted, at the end of the given buffer.
    fn redact_into(&self, buffer: &mut String)
        ensures
            final(buffer)@ == old(buffer)@ + self.redacted(),
    ;
}

/// A value of a registered type together with the formatter of the type and
/// the noise offsets sampled for it. It can only be made from values that
/// the formatter accepts, so redacting it cannot fail.
pub struct BoundValue<'a> {
    formatter: &'a Formatter,
    variant: usize,
    values: Vec<FieldValue>,
    noise: Vec<i64>,
    alternate: bool,
}

impl<'a> BoundValue<'a> {
    #[verifier::type_invariant]
    spec fn accepted(self) -> bool {
        self.formatter.description().input_error(self.variant, self.values@, self.noise@.len())
            is None
    }

    /// The formatter of the value's type.
    pub closed spec fn formatter(self) -> Formatter {
        *self.formatter
    }

    /// Which alternative of the type the value is.
    pub closed spec fn variant(self) -> usize {
        self.variant
    }

    /// The values of the fields.
    pub closed spec fn values(self) -> Seq<FieldValue> {
        self.values@
    }

    /// The noise offsets.
    pub closed spec fn noise(self) -> Seq<i64> {
        self.noise@
    }

    /// Whether the pretty layout is used.
    pub closed spec fn alternate(self) -> bool {
        self.alternate
    }

    /// Binds values and noise offsets to the formatter of their type, or says
    /// why the formatter does not accept them.
    pub fn new(
        formatter: &'a Formatter,
        variant: usize,
        values: Vec<FieldValue>,
        noise: Vec<i64>,
        alternate: bool,
    ) -> (r: Result<BoundValue<'a>, FormatError>)
        ensures
            match r {
                Ok(bound) => {
                    &&& formatter.description().input_error(variant, values@, noise@.len()) is None
                    &&& bound.formatter() == *formatter
                    &&& bound.variant() == variant
                    &&& bound.values() == values@
                    &&& bound.noise() == noise@
                    &&& bound.alternate() == alternate
                },
                Err(e) => formatter.description().input_error(variant, values@, noise@.len())
                    == Some(e),
            },
    {
        match formatter.check(variant, &values, noise.len()) {
            Some(e) => Err(e),
            None => Ok(BoundValue { formatter, variant, values, noise, alternate }),
        }
    }
}

impl<'a> Redactable for BoundValue<'a> {
    open spec fn redacted(&self) -> Seq<char> {
        self.formatter().description().rendering(
            self.variant() as int,
            self.values(),
            self.noise(),
            self.alternate(),
        )
    }

    fn redact_into(&self, buffer: &mut String) {
        proof {
            use_type_invariant(self);
        }
        match self.formatter.format(self.variant, &self.values, &self.noise, self.alternate) {
            Ok(text) => {
                crate::layout::push_text(buffer, text.as_str());
            },
            Err(_) => {
                assert(false);
            },
        }
    }
}

} // verus!
