//! The directive model: what one privacy directive says, and how a masking
//! mode is resolved from it.

use vstd::prelude::*;

verus! {

/// The character that `fixed` masking emits.
pub const MASK_CHAR: char = '*';

/// Parameters of partial masking: how many characters stay readable at each
/// end, and the character that replaces the rest.
#[derive(Clone, Copy, Debug, PartialEq, Eq)]
pub struct PartialMask {
    pub front: u32,
    pub back: u32,
    pub mask: char,
}

/// One directive instance, exactly as written: every option is either absent
/// or present with its arguments. Nothing about a combination is checked here.
#[derive(Clone, Copy, Debug, PartialEq, Eq)]
pub struct Directive {
    pub skip: bool,
    pub fixed: Option<u32>,
    pub partial: Option<PartialMask>,
    pub all: bool,
    pub variant: bool,
    pub display: bool,
}

/// The three masking options, by name.
#[derive(Clone, Copy, Debug, PartialEq, Eq)]
pub enum MaskOption {
    Skip,
    Fixed,
    Partial,
}

/// A masking mode: at most one is active on a value.
#[derive(Clone, Copy, Debug, PartialEq, Eq)]
pub enum Mask {
    /// The rendered value is emitted as it is.
    Unmasked,
    /// The value is left out of the output altogether.
    Skip,
    /// The value is replaced by this many mask characters.
    Fixed(u32),
    /// The middle of the value is replaced, the ends are kept.
    Partial(PartialMask),
}

/// What applies to one field once its directives are resolved: a masking mode,
/// and whether the value is rendered for humans (`display`) or for debugging
/// before the mask is applied.
#[derive(Clone, Copy, Debug, PartialEq, Eq)]
pub struct FieldDirective {
    pub mask: Mask,
    pub display: bool,
}

impl Directive {
    /// The directive with no option set.
    pub open spec fn empty() -> Directive {
        Directive {
            skip: false,
            fixed: None,
            partial: None,
            all: false,
            variant: false,
            display: false,
        }
    }

    /// The two masking options that clash in this directive, in the order
    /// skip, fixed, partial, when more than one is set.
    pub open spec fn conflict(self) -> Option<(MaskOption, MaskOption)> {
        if self.skip && self.fixed is Some {
            Some((MaskOption::Skip, MaskOption::Fixed))
        } else if self.skip && self.partial is Some {
            Some((MaskOption::Skip, MaskOption::Partial))
        } else if self.fixed is Some && self.partial is Some {
            Some((MaskOption::Fixed, MaskOption::Partial))
        } else {
            None
        }
    }

    /// The masking mode this directive asks for.
    pub open spec fn mask(self) -> Mask {
        if self.skip {
            Mask::Skip
        } else if self.fixed is Some {
            Mask::Fixed(self.fixed->0)
        } else if self.partial is Some {
            Mask::Partial(self.partial->0)
        } else {
            Mask::Unmasked
        }
    }

    /// The directive as it applies to a field.
    pub open spec fn resolved(self) -> FieldDirective {
        FieldDirective { mask: self.mask(), display: self.display }
    }

    /// A directive with no option set.
    pub fn new() -> (d: Directive)
        ensures
            d == Directive::empty(),
    {
        Directive {
            skip: false,
            fixed: None,
            partial: None,
            all: false,
            variant: false,
            display: false,
        }
    }

    /// Finds the clashing masking options, if any.
    pub fn find_conflict(&self) -> (r: Option<(MaskOption, MaskOption)>)
        ensures
            r == self.conflict(),
    {
        if self.skip && self.fixed.is_some() {
            Some((MaskOption::Skip, MaskOption::Fixed))
        } else if self.skip && self.partial.is_some() {
            Some((MaskOption::Skip, MaskOption::Partial))
        } else if self.fixed.is_some() && self.partial.is_some() {
            Some((MaskOption::Fixed, MaskOption::Partial))
        } else {
            None
        }
    }

    /// Resolves the directive for a field.
    pub fn resolve(&self) -> (r: FieldDirective)
        ensures
            r == self.resolved(),
    {
        let mask = if self.skip {
            Mask::Skip
        } else {
            match self.fixed {
                Some(n) => Mask::Fixed(n),
                None => match self.partial {
                    Some(p) => Mask::Partial(p),
                    None => Mask::Unmasked,
                },
            }
        };
        FieldDirective { mask, display: self.display }
    }
}

impl FieldDirective {
    /// The directive of a field that carries none: debug rendering, no mask.
    pub open spec fn plain() -> FieldDirective {
        FieldDirective { mask: Mask::Unmasked, display: false }
    }
}

} // verus!
