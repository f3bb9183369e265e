//! The rules a type description has to meet before a formatter is made from
//! it. Every rule is a spec function; the executable checks are proved to
//! report exactly the first violation in declaration order.

use crate::directive::{Directive, FieldDirective, Mask, MaskOption};
use crate::model::{FieldDescription, FieldSet, TypeDescription};
use vstd::prelude::*;

verus! {

/// The two concerns a directive on a variant can address.
#[derive(Clone, Copy, Debug, PartialEq, Eq)]
pub enum Scope {
    /// The default for every field of the variant.
    All,
    /// The variant's name.
    Variant,
}

/// The rule that a description breaks.
#[derive(Clone, Copy, Debug, PartialEq, Eq)]
pub enum Rule {
    /// A directive on the type itself does not set both `all` and `variant`.
    TopLevelIncomplete,
    /// `display` on a directive that redacts a name.
    DisplayOnName,
    /// `all` and `variant` in one directive instance.
    CombinedScopes,
    /// A directive on a variant sets neither `all` nor `variant`.
    MissingScope,
    /// A second directive of the same scope on one variant.
    DuplicateDirective(Scope),
    /// An `all` directive on a variant that has no fields to redact.
    UnitWithAll,
    /// Two masking options in one directive; both are named.
    ConflictingMasks(MaskOption, MaskOption),
}

/// Where in the description a rule is broken.
#[derive(Clone, Copy, Debug, PartialEq, Eq)]
pub enum Site {
    /// The directive on the type itself.
    Type,
    /// A directive on the variant with this index.
    Variant(usize),
    /// The directive on a field: the variant's index (0 for a record), then
    /// the field's.
    Field(usize, usize),
}

/// A broken rule and the place where it is broken.
#[derive(Clone, Copy, Debug, PartialEq, Eq)]
pub struct ValidationError {
    pub site: Site,
    pub rule: Rule,
}

/// The directives of one variant, sorted by what they address.
#[derive(Clone, Copy, Debug, PartialEq, Eq)]
pub struct Scopes {
    pub name: Option<Directive>,
    pub all: Option<Directive>,
}

/// What validation settles for one alternative: the mask on its name, and
/// the directive in force on each of its fields.
pub struct Resolution {
    pub name_mask: Mask,
    pub fields: Seq<FieldDirective>,
}

/// The rule against two masking options in one directive, where `d` breaks it.
pub open spec fn conflict_rule(d: Directive) -> Option<Rule> {
    match d.conflict() {
        Some((first, second)) => Some(Rule::ConflictingMasks(first, second)),
        None => None,
    }
}

/// The rule that a directive on the type itself breaks, if any.
pub open spec fn top_level_violation(d: Directive) -> Option<Rule> {
    if !d.all || !d.variant {
        Some(Rule::TopLevelIncomplete)
    } else if d.display {
        Some(Rule::DisplayOnName)
    } else if d.conflict() is Some {
        conflict_rule(d)
    } else {
        None
    }
}

/// Files one more directive instance of a variant under its scope, or names
/// the rule it breaks.
pub open spec fn add_instance(acc: Scopes, d: Directive) -> Result<Scopes, Rule> {
    if d.all && d.variant {
        Err(Rule::CombinedScopes)
    } else if !d.all && !d.variant {
        Err(Rule::MissingScope)
    } else if d.conflict() is Some {
        Err(conflict_rule(d)->0)
    } else if d.all {
        if acc.all is Some {
            Err(Rule::DuplicateDirective(Scope::All))
        } else {
            Ok(Scopes { name: acc.name, all: Some(d) })
        }
    } else if d.display {
        Err(Rule::DisplayOnName)
    } else if acc.name is Some {
        Err(Rule::DuplicateDirective(Scope::Variant))
    } else {
        Ok(Scopes { name: Some(d), all: acc.all })
    }
}

/// Files the instances from position `from` on, in order, stopping at the
/// first that breaks a rule.
pub open spec fn collect_from(ds: Seq<Directive>, from: int, acc: Scopes) -> Result<Scopes, Rule>
    decreases ds.len() - from,
{
    if from < 0 || from >= ds.len() {
        Ok(acc)
    } else {
        match add_instance(acc, ds[from]) {
            Err(rule) => Err(rule),
            Ok(next) => collect_from(ds, from + 1, next),
        }
    }
}

/// The scopes of a variant's directive instances.
pub open spec fn collect(ds: Seq<Directive>) -> Result<Scopes, Rule> {
    collect_from(ds, 0, Scopes { name: None, all: None })
}

/// The rule that the directive on a field breaks, if any.
pub open spec fn field_violation(f: FieldDescription) -> Option<Rule> {
    match f.directive {
        None => None,
        Some(d) => if d.all && d.variant {
            Some(Rule::CombinedScopes)
        } else if d.conflict() is Some {
            conflict_rule(d)
        } else {
            None
        },
    }
}

/// The first field from position `from` on whose directive breaks a rule.
pub open spec fn first_field_violation(fields: Seq<FieldDescription>, from: int) -> Option<
    (int, Rule),
>
    decreases fields.len() - from,
{
    if from < 0 || from >= fields.len() {
        None
    } else if field_violation(fields[from]) is Some {
        Some((from, field_violation(fields[from])->0))
    } else {
        first_field_violation(fields, from + 1)
    }
}

/// The mask on a name, from the directive that addresses it. `skip` leaves
/// the name as it is: on a variant it opts out of an inherited mask.
pub open spec fn name_mask_of(d: Option<Directive>) -> Mask {
    match d {
        None => Mask::Unmasked,
        Some(d) => if d.skip {
            Mask::Unmasked
        } else {
            d.mask()
        },
    }
}

/// The directive in force on a field: its own where it has one, else the
/// variant's `all` directive, else none.
pub open spec fn field_directive_of(f: FieldDescription, all: Option<Directive>) -> FieldDirective {
    match f.directive {
        Some(d) => d.resolved(),
        None => match all {
            Some(a) => a.resolved(),
            None => FieldDirective::plain(),
        },
    }
}

/// The directives in force on the fields of a set.
pub open spec fn field_directives(fields: Seq<FieldDescription>, all: Option<Directive>) -> Seq<
    FieldDirective,
> {
    Seq::new(fields.len(), |j: int| field_directive_of(fields[j], all))
}

/// Validates alternative `i`: its directive instances in order, then that a
/// unit shape carries no `all` directive, then its fields in order. A local
/// `variant` directive takes precedence over the inherited one.
pub open spec fn resolve_alternative(
    instances: Seq<Directive>,
    field_set: FieldSet,
    inherited: Option<Directive>,
    i: int,
) -> Result<Resolution, ValidationError> {
    match collect(instances) {
        Err(rule) => Err(ValidationError { site: Site::Variant(i as usize), rule }),
        Ok(scopes) => if scopes.all is Some && field_set is Unit {
            Err(ValidationError { site: Site::Variant(i as usize), rule: Rule::UnitWithAll })
        } else {
            match first_field_violation(field_set.fields(), 0) {
                Some((j, rule)) => Err(
                    ValidationError { site: Site::Field(i as usize, j as usize), rule },
                ),
                None => Ok(
                    Resolution {
                        name_mask: name_mask_of(
                            if scopes.name is Some {
                                scopes.name
                            } else {
                                inherited
                            },
                        ),
                        fields: field_directives(field_set.fields(), scopes.all),
                    },
                ),
            }
        },
    }
}

impl TypeDescription {
    /// What validation settles for alternative `i`, or the first rule broken
    /// within it.
    pub open spec fn resolution(self, i: int) -> Result<Resolution, ValidationError> {
        resolve_alternative(self.instances(i), self.field_set(i), self.inherited(), i)
    }

    /// The first violation among the alternatives from `from` on.
    pub open spec fn first_violation_from(self, from: int) -> Option<ValidationError>
        decreases self.variant_count() - from,
    {
        if from < 0 || from >= self.variant_count() {
            None
        } else {
            match self.resolution(from) {
                Err(e) => Some(e),
                Ok(_) => self.first_violation_from(from + 1),
            }
        }
    }

    /// The first violation in the description: the type's own directive is
    /// checked first, then each alternative in declaration order.
    pub open spec fn first_violation(self) -> Option<ValidationError> {
        if self.directive is Some && top_level_violation(self.directive->0) is Some {
            Some(
                ValidationError {
                    site: Site::Type,
                    rule: top_level_violation(self.directive->0)->0,
                },
            )
        } else {
            self.first_violation_from(0)
        }
    }

    /// No rule is broken anywhere in the description.
    pub open spec fn valid(self) -> bool {
        self.first_violation() is None
    }

    /// The mask on the name of alternative `i` of a valid description.
    pub open spec fn name_mask(self, i: int) -> Mask {
        self.resolution(i)->Ok_0.name_mask
    }

    /// The directive in force on field `j` of alternative `i` of a valid
    /// description.
    pub open spec fn field_directive(self, i: int, j: int) -> FieldDirective {
        self.resolution(i)->Ok_0.fields[j]
    }
}

/// Checks a directive written on the type itself.
pub fn check_top_level(d: &Directive) -> (r: Option<Rule>)
    ensures
        r == top_level_violation(*d),
{
    if !d.all || !d.variant {
        return Some(Rule::TopLevelIncomplete);
    }
    if d.display {
        return Some(Rule::DisplayOnName);
    }
    match d.find_conflict() {
        Some((a, b)) => Some(Rule::ConflictingMasks(a, b)),
        None => None,
    }
}

/// Files one directive instance of a variant under its scope.
pub fn file_instance(acc: Scopes, d: &Directive) -> (r: Result<Scopes, Rule>)
    ensures
        r == add_instance(acc, *d),
{
    if d.all && d.variant {
        return Err(Rule::CombinedScopes);
    }
    if !d.all && !d.variant {
        return Err(Rule::MissingScope);
    }
    if let Some((a, b)) = d.find_conflict() {
        return Err(Rule::ConflictingMasks(a, b));
    }
    if d.all {
        if acc.all.is_some() {
            Err(Rule::DuplicateDirective(Scope::All))
        } else {
            Ok(Scopes { name: acc.name, all: Some(*d) })
        }
    } else if d.display {
        Err(Rule::DisplayOnName)
    } else if acc.name.is_some() {
        Err(Rule::DuplicateDirective(Scope::Variant))
    } else {
        Ok(Scopes { name: Some(*d), all: acc.all })
    }
}

/// Sorts the directive instances of a variant by scope, or reports the first
/// one that breaks a rule.
pub fn collect_scopes(ds: &Vec<Directive>) -> (r: Result<Scopes, Rule>)
    ensures
        r == collect(ds@),
{
    let mut acc = Scopes { name: None, all: None };
    let mut k: usize = 0;
    while k < ds.len()
        invariant
            k <= ds.len(),
            collect(ds@) == collect_from(ds@, k as int, acc),
        decreases ds.len() - k,
    {
        match file_instance(acc, &ds[k]) {
            Err(rule) => {
                return Err(rule);
            },
            Ok(next) => {
                acc = next;
            },
        }
        k += 1;
    }
    Ok(acc)
}

/// Checks the directive written on one field.
pub fn check_field(f: &FieldDescription) -> (r: Option<Rule>)
    ensures
        r == field_violation(*f),
{
    match &f.directive {
        None => None,
        Some(d) => {
            if d.all && d.variant {
                return Some(Rule::CombinedScopes);
            }
            match d.find_conflict() {
                Some((a, b)) => Some(Rule::ConflictingMasks(a, b)),
                None => None,
            }
        },
    }
}

/// Finds the first field whose directive breaks a rule.
pub fn check_fields(fields: &Vec<FieldDescription>) -> (r: Option<(usize, Rule)>)
    ensures
        match r {
            Some((j, rule)) => first_field_violation(fields@, 0) == Some((j as int, rule)),
            None => first_field_violation(fields@, 0) is None,
        },
{
    let mut j: usize = 0;
    while j < fields.len()
        invariant
            j <= fields.len(),
            first_field_violation(fields@, 0) == first_field_violation(fields@, j as int),
        decreases fields.len() - j,
    {
        if let Some(rule) = check_field(&fields[j]) {
            return Some((j, rule));
        }
        j += 1;
    }
    None
}

/// The mask on a name, from the directive that addresses it.
pub fn resolve_name_mask(d: &Option<Directive>) -> (m: Mask)
    ensures
        m == name_mask_of(*d),
{
    match d {
        None => Mask::Unmasked,
        Some(d) => {
            if d.skip {
                Mask::Unmasked
            } else {
                d.resolve().mask
            }
        },
    }
}

/// The directives in force on the fields of a set.
pub fn resolve_fields(fields: &Vec<FieldDescription>, all: &Option<Directive>) -> (out: Vec<
    FieldDirective,
>)
    ensures
        out@ == field_directives(fields@, *all),
{
    let mut out: Vec<FieldDirective> = Vec::new();
    let mut j: usize = 0;
    while j < fields.len()
        invariant
            j <= fields.len(),
            out@ == field_directives(fields@, *all).take(j as int),
        decreases fields.len() - j,
    {
        let resolved = match &fields[j].directive {
            Some(d) => d.resolve(),
            None => match all {
                Some(a) => a.resolve(),
                None => FieldDirective { mask: Mask::Unmasked, display: false },
            },
        };
        out.push(resolved);
        j += 1;
    }
    out
}

/// An instance that sets both `all` and `variant` makes the whole list of a
/// variant's instances fail, wherever it stands in the list.
pub proof fn lemma_combined_instance_fails(ds: Seq<Directive>, k: int, from: int, acc: Scopes)
    requires
        0 <= from <= k < ds.len(),
        ds[k].all && ds[k].variant,
    ensures
        collect_from(ds, from, acc) is Err,
    decreases k - from,
{
    if from < k {
        match add_instance(acc, ds[from]) {
            Err(_) => {},
            Ok(next) => {
                lemma_combined_instance_fails(ds, k, from + 1, next);
            },
        }
    }
}

/// A field whose directive breaks a rule makes the search for the first such
/// field succeed.
pub proof fn lemma_field_violation_found(fields: Seq<FieldDescription>, j: int, from: int)
    requires
        0 <= from <= j < fields.len(),
        field_violation(fields[j]) is Some,
    ensures
        first_field_violation(fields, from) is Some,
    decreases j - from,
{
    if from < j && field_violation(fields[from]) is None {
        lemma_field_violation_found(fields, j, from + 1);
    }
}

impl TypeDescription {
    /// An alternative that breaks a rule is found by the search that starts
    /// at or before it.
    pub proof fn lemma_violation_reached(self, i: int, from: int)
        requires
            0 <= from <= i < self.variant_count(),
            self.resolution(i) is Err,
        ensures
            self.first_violation_from(from) is Some,
        decreases i - from,
    {
        if from < i && self.resolution(from) is Ok {
            self.lemma_violation_reached(i, from + 1);
        }
    }

    /// An alternative that breaks a rule makes the description invalid.
    pub proof fn lemma_violation_found(self, i: int)
        requires
            0 <= i < self.variant_count(),
            self.resolution(i) is Err,
        ensures
            !self.valid(),
    {
        self.lemma_violation_reached(i, 0);
    }

    /// In a valid description every alternative is resolved.
    pub proof fn lemma_valid_is_resolved(self, i: int)
        requires
            self.valid(),
            0 <= i < self.variant_count(),
        ensures
            self.resolution(i) is Ok,
    {
        if self.resolution(i) is Err {
            self.lemma_violation_found(i);
        }
    }

    /// The directives of alternative `i` of a valid description, sorted by
    /// scope.
    pub open spec fn scopes(self, i: int) -> Scopes {
        collect(self.instances(i))->Ok_0
    }

    /// Where a field carries a directive of its own, that directive is in
    /// force on it, whatever the `all` directive of its variant says.
    pub proof fn lemma_field_directive_wins(self, i: int, j: int)
        requires
            self.valid(),
            0 <= i < self.variant_count(),
            0 <= j < self.field_set(i).fields().len(),
            self.field_set(i).fields()[j].directive is Some,
        ensures
            self.field_directive(i, j) == self.field_set(i).fields()[j].directive->0.resolved(),
    {
        self.lemma_valid_is_resolved(i);
    }

    /// Where a field carries no directive, the `all` directive of its variant
    /// is in force on it, and none where the variant has no such directive.
    pub proof fn lemma_all_directive_applies(self, i: int, j: int)
        requires
            self.valid(),
            0 <= i < self.variant_count(),
            0 <= j < self.field_set(i).fields().len(),
            self.field_set(i).fields()[j].directive is None,
        ensures
            self.field_directive(i, j) == (match self.scopes(i).all {
                Some(all) => all.resolved(),
                None => FieldDirective::plain(),
            }),
    {
        self.lemma_valid_is_resolved(i);
    }

    /// The name of a variant takes the mask of the variant's own `variant`
    /// directive where there is one, and else that of the directive on the
    /// type, which every variant inherits.
    pub proof fn lemma_name_directive_precedence(self, i: int)
        requires
            self.valid(),
            0 <= i < self.variant_count(),
        ensures
            self.scopes(i).name is Some ==> self.name_mask(i) == name_mask_of(self.scopes(i).name),
            self.scopes(i).name is None ==> self.name_mask(i) == name_mask_of(self.inherited()),
    {
        self.lemma_valid_is_resolved(i);
    }

    /// A directive on the type itself that does not set both `all` and
    /// `variant` is always rejected, and is the first thing reported.
    pub proof fn lemma_incomplete_top_level_rejected(self)
        requires
            self.directive is Some,
            !self.directive->0.all || !self.directive->0.variant,
        ensures
            self.first_violation() == Some(
                ValidationError { site: Site::Type, rule: Rule::TopLevelIncomplete },
            ),
            !self.valid(),
    {
    }

    /// A directive instance on a variant that sets both `all` and `variant`
    /// is always rejected: no description that holds one is valid.
    pub proof fn lemma_combined_on_variant_rejected(self, i: int, k: int)
        requires
            0 <= i < self.variant_count(),
            0 <= k < self.instances(i).len(),
            self.instances(i)[k].all && self.instances(i)[k].variant,
        ensures
            !self.valid(),
    {
        lemma_combined_instance_fails(self.instances(i), k, 0, Scopes { name: None, all: None });
        self.lemma_violation_found(i);
    }

    /// A directive on a field that sets both `all` and `variant` is always
    /// rejected: no description that holds one is valid.
    pub proof fn lemma_combined_on_field_rejected(self, i: int, j: int)
        requires
            0 <= i < self.variant_count(),
            0 <= j < self.field_set(i).fields().len(),
            self.field_set(i).fields()[j].directive is Some,
            self.field_set(i).fields()[j].directive->0.all,
            self.field_set(i).fields()[j].directive->0.variant,
        ensures
            !self.valid(),
    {
        lemma_field_violation_found(self.field_set(i).fields(), j, 0);
        self.lemma_violation_found(i);
    }
}

} // verus!
