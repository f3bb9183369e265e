//! Errors in words: which item of a description breaks which rule, and
//! which noise parameter is out of range.

use crate::directive::MaskOption;
use crate::formatter::{field_name, positional_label};
use crate::layout::push_text;
use crate::model::{Shape, TypeDescription};
use crate::noise::NoiseParameter;
use crate::text::push_char;
use crate::validate::{Rule, Scope, Site, ValidationError};
use vstd::prelude::*;

verus! {

/// The name of a masking option.
pub open spec fn option_name(option: MaskOption) -> Seq<char> {
    match option {
        MaskOption::Skip => "skip"@,
        MaskOption::Fixed => "fixed"@,
        MaskOption::Partial => "partial"@,
    }
}

/// The name of a noise parameter.
pub open spec fn parameter_name(parameter: NoiseParameter) -> Seq<char> {
    match parameter {
        NoiseParameter::Sensitivity => "sensitivity"@,
        NoiseParameter::Epsilon => "epsilon"@,
    }
}

/// What a rule asks for.
pub open spec fn rule_message(rule: Rule) -> Seq<char> {
    match rule {
        Rule::TopLevelIncomplete =>
            "a directive on the type has to set both `all` and `variant`, to redact every variant name"@,
        Rule::DisplayOnName => "`display` is invalid on a directive that redacts a name"@,
        Rule::CombinedScopes =>
            "`all` and `variant` in one directive are invalid, split them into two directives"@,
        Rule::MissingScope => "a directive on a variant has to set `all` or `variant`"@,
        Rule::DuplicateDirective(Scope::All) => "an `all` directive is already present"@,
        Rule::DuplicateDirective(Scope::Variant) => "a `variant` directive is already present"@,
        Rule::UnitWithAll => "a unit variant needs no `all` directive, it holds no data"@,
        Rule::ConflictingMasks(first, second) => option_name(first) + " conflicts with "@
            + option_name(second),
    }
}

/// The name of the item at a site: the type, `Variant`, or `Variant.field`.
/// A site that the description does not have is named by the type.
pub open spec fn site_name(desc: TypeDescription, site: Site) -> Seq<char> {
    match site {
        Site::Type => desc.name@,
        Site::Variant(i) => if i < desc.variant_count() {
            desc.variant_name(i as int)
        } else {
            desc.name@
        },
        Site::Field(i, j) => if i < desc.variant_count() && j < desc.field_set(
            i as int,
        ).fields().len() {
            desc.variant_name(i as int) + seq!['.'] + field_name(
                desc.field_set(i as int).shape(),
                desc.field_set(i as int).fields()[j as int],
                j as int,
            )
        } else {
            desc.name@
        },
    }
}

/// A violation in words: the offending item, then the rule.
pub open spec fn violation_message(desc: TypeDescription, error: ValidationError) -> Seq<char> {
    site_name(desc, error.site) + seq![':', ' '] + rule_message(error.rule)
}

/// A rejected noise parameter in words.
pub open spec fn parameter_message(parameter: NoiseParameter) -> Seq<char> {
    parameter_name(parameter) + " has to be positive"@
}

/// The name of a masking option.
pub fn option_label(option: MaskOption) -> (name: &'static str)
    ensures
        name@ == option_name(option),
{
    match option {
        MaskOption::Skip => "skip",
        MaskOption::Fixed => "fixed",
        MaskOption::Partial => "partial",
    }
}

/// Appends what a rule asks for.
pub fn push_rule(out: &mut String, rule: Rule)
    ensures
        final(out)@ == old(out)@ + rule_message(rule),
{
    match rule {
        Rule::TopLevelIncomplete => push_text(
            out,
            "a directive on the type has to set both `all` and `variant`, to redact every variant name",
        ),
        Rule::DisplayOnName => push_text(
            out,
            "`display` is invalid on a directive that redacts a name",
        ),
        Rule::CombinedScopes => push_text(
            out,
            "`all` and `variant` in one directive are invalid, split them into two directives",
        ),
        Rule::MissingScope => push_text(
            out,
            "a directive on a variant has to set `all` or `variant`",
        ),
        Rule::DuplicateDirective(Scope::All) => push_text(
            out,
            "an `all` directive is already present",
        ),
        Rule::DuplicateDirective(Scope::Variant) => push_text(
            out,
            "a `variant` directive is already present",
        ),
        Rule::UnitWithAll => push_text(
            out,
            "a unit variant needs no `all` directive, it holds no data",
        ),
        Rule::ConflictingMasks(first, second) => {
            push_text(out, option_label(first));
            push_text(out, " conflicts with ");
            push_text(out, option_label(second));
            assert(out@ == old(out)@ + (option_name(first) + " conflicts with "@ + option_name(
                second,
            )));
        },
    }
}

/// Appends the name of the item at a site.
pub fn push_site(out: &mut String, desc: &TypeDescription, site: Site)
    ensures
        final(out)@ == old(out)@ + site_name(*desc, site),
{
    match site {
        Site::Type => push_text(out, desc.name.as_str()),
        Site::Variant(i) => {
            if i < desc.count_variants() {
                push_text(out, desc.variant_name_of(i));
            } else {
                push_text(out, desc.name.as_str());
            }
        },
        Site::Field(i, j) => {
            if i < desc.count_variants() {
                let field_set = desc.field_set_of(i);
                if let Some(fields) = field_set.listed() {
                    if j < fields.len() {
                        push_text(out, desc.variant_name_of(i));
                        push_char(out, '.');
                        if let Shape::Positional = field_set.shape_of() {
                            let label = positional_label(j);
                            push_text(out, label.as_str());
                        } else {
                            push_text(out, fields[j].name.as_str());
                        }
                        assert(out@ == old(out)@ + site_name(*desc, site));
                        return ;
                    }
                }
            }
            push_text(out, desc.name.as_str());
        },
    }
}

impl ValidationError {
    /// This violation in words: the name of the offending item and the rule
    /// that it breaks.
    pub fn message(&self, desc: &TypeDescription) -> (out: String)
        ensures
            out@ == violation_message(*desc, *self),
    {
        let mut out = String::new();
        push_site(&mut out, desc, self.site);
        push_char(&mut out, ':');
        push_char(&mut out, ' ');
        push_rule(&mut out, self.rule);
        out
    }
}

/// A rejected noise parameter in words; the parameter is named.
pub fn describe_parameter(parameter: NoiseParameter) -> (out: String)
    ensures
        out@ == parameter_message(parameter),
{
    let mut out = String::new();
    match parameter {
        NoiseParameter::Sensitivity => push_text(&mut out, "sensitivity"),
        NoiseParameter::Epsilon => push_text(&mut out, "epsilon"),
    }
    push_text(&mut out, " has to be positive");
    out
}

} // verus!
