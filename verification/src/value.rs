//! The values that a formatter is applied to, and their text before masking.

use crate::model::ValueKind;
use crate::number::{decimal, decimal_text};
use vstd::prelude::*;

verus! {

/// The value of one field.
#[derive(Clone, Debug, PartialEq, Eq)]
pub enum FieldValue {
    /// An integer.
    Numeric(i64),
    /// A text. For humans it is shown as it is, for debugging quoted and
    /// escaped.
    Textual(String),
    /// Anything else, handed in as the text that stands for it.
    Opaque(String),
}

/// The debug rendering of a text: the text in double quotes, with the
/// characters that need it escaped, as the standard library's `Debug` for
/// `str` writes it. It depends on the text alone.
pub uninterp spec fn debug_quoted(text: Seq<char>) -> Seq<char>;

/// Renders a text for debugging.
///
/// Trusted: the body formats the text with `{:?}`, that is with `Debug` for
/// `str`; the contract only gives that result its name.
#[verifier::external_body]
fn quote_debug(text: &str) -> (out: String)
    ensures
        out@ == debug_quoted(text@),
{
    format!("{:?}", text)
}

impl FieldValue {
    /// The kind of this value.
    pub open spec fn kind(self) -> ValueKind {
        match self {
            FieldValue::Numeric(_) => ValueKind::Numeric,
            FieldValue::Textual(_) => ValueKind::Textual,
            FieldValue::Opaque(_) => ValueKind::Opaque,
        }
    }

    /// The text of this value before masking, for humans (`display`) or for
    /// debugging.
    pub open spec fn rendered(self, display: bool) -> Seq<char> {
        match self {
            FieldValue::Numeric(n) => decimal(n as int),
            FieldValue::Textual(s) => if display {
                s@
            } else {
                debug_quoted(s@)
            },
            FieldValue::Opaque(s) => s@,
        }
    }

    /// The kind of this value.
    pub fn kind_of(&self) -> (k: ValueKind)
        ensures
            k == self.kind(),
    {
        match self {
            FieldValue::Numeric(_) => ValueKind::Numeric,
            FieldValue::Textual(_) => ValueKind::Textual,
            FieldValue::Opaque(_) => ValueKind::Opaque,
        }
    }

    /// Renders this value before masking.
    pub fn render(&self, display: bool) -> (out: String)
        ensures
            out@ == self.rendered(display),
    {
        match self {
            FieldValue::Numeric(n) => decimal_text(*n),
            FieldValue::Textual(s) => {
                if display {
                    s.as_str().to_owned()
                } else {
                    quote_debug(s.as_str())
                }
            },
            FieldValue::Opaque(s) => s.as_str().to_owned(),
        }
    }
}

} // verus!
