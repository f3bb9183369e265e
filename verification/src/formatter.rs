//! Registration and formatting. A description is validated once, eagerly,
//! when it is registered; what comes out is a formatter, which renders the
//! values of the type with every directive applied.

use crate::directive::{FieldDirective, Mask};
use crate::layout::{entries_of, lay_out, layout, Entry, RenderedField};
use crate::mask::{masked, redact_text};
use crate::model::{FieldDescription, Shape, TypeBody, TypeDescription, ValueKind};
use crate::noise::{apply_noise, noised};
use crate::number::{decimal, decimal_nat, decimal_text, push_decimal};
use crate::text::push_char;
use crate::validate::{
    check_fields, check_top_level, collect, collect_scopes, resolve_fields, resolve_name_mask,
    Resolution, Rule, Scopes, Site, ValidationError,
};
use crate::value::FieldValue;
use vstd::prelude::*;

verus! {

/// Why a value cannot be formatted.
#[derive(Clone, Copy, Debug, PartialEq, Eq)]
pub enum FormatError {
    /// The type has no alternative with this index.
    UnknownVariant { index: usize, count: usize },
    /// The number of values differs from the number of fields.
    WrongArity { expected: usize, given: usize },
    /// The value of this field is not of the declared kind.
    KindMismatch { field: usize },
    /// This field is to receive noise and no offset was supplied for it.
    MissingNoise { field: usize },
}

/// A field before redaction: its name, its text, and the mask in force.
pub struct Item {
    pub name: Seq<char>,
    pub text: Seq<char>,
    pub mask: Mask,
}

/// The fields that are shown, each with its text after masking. A skipped
/// field contributes nothing.
pub open spec fn shown(items: Seq<Item>) -> Seq<Entry>
    decreases items.len(),
{
    if items.len() == 0 {
        Seq::empty()
    } else {
        match masked(items.last().mask, items.last().text) {
            Some(text) => shown(items.drop_last()).push(Entry { name: items.last().name, text }),
            None => shown(items.drop_last()),
        }
    }
}

/// The name of the positional field at `j`: `arg0`, `arg1`, and so on.
pub open spec fn positional_name(j: nat) -> Seq<char> {
    seq!['a', 'r', 'g'] + decimal_nat(j)
}

/// The name under which field `j` is listed.
pub open spec fn field_name(shape: Shape, f: FieldDescription, j: int) -> Seq<char> {
    if shape is Positional {
        positional_name(j as nat)
    } else {
        f.name@
    }
}

/// Whether a field is routed through the noise engine: it is tagged for it
/// and numeric.
pub open spec fn needs_noise(f: FieldDescription) -> bool {
    f.noised && f.kind is Numeric
}

/// The text of a value before masking. A numeric value that receives noise
/// is rendered with the offset added and clamped; every other value is
/// rendered as it is.
pub open spec fn value_text(f: FieldDescription, d: FieldDirective, v: FieldValue, offset: int)
    -> Seq<char> {
    match v {
        FieldValue::Numeric(n) => if needs_noise(f) {
            decimal(noised(n as int, offset))
        } else {
            decimal(n as int)
        },
        _ => v.rendered(d.display),
    }
}

/// The fields of one alternative before redaction.
pub open spec fn items_of(
    shape: Shape,
    fields: Seq<FieldDescription>,
    directives: Seq<FieldDirective>,
    values: Seq<FieldValue>,
    noise: Seq<i64>,
) -> Seq<Item> {
    Seq::new(
        fields.len(),
        |j: int|
            Item {
                name: field_name(shape, fields[j], j),
                text: value_text(fields[j], directives[j], values[j], noise[j] as int),
                mask: directives[j].mask,
            },
    )
}

/// The first field from `from` on whose value cannot be used: it is not of
/// the declared kind, or it needs a noise offset that is not there.
pub open spec fn first_input_error(
    fields: Seq<FieldDescription>,
    values: Seq<FieldValue>,
    offsets: nat,
    from: int,
) -> Option<FormatError>
    decreases fields.len() - from,
{
    if from < 0 || from >= fields.len() {
        None
    } else if values[from].kind() != fields[from].kind {
        Some(FormatError::KindMismatch { field: from as usize })
    } else if needs_noise(fields[from]) && from >= offsets {
        Some(FormatError::MissingNoise { field: from as usize })
    } else {
        first_input_error(fields, values, offsets, from + 1)
    }
}

impl TypeDescription {
    /// Why the values cannot be formatted as alternative `variant`, if they
    /// cannot: the index is checked first, then the number of values, then
    /// the fields in order.
    pub open spec fn input_error(self, variant: usize, values: Seq<FieldValue>, offsets: nat)
        -> Option<FormatError> {
        if variant >= self.variant_count() {
            Some(
                FormatError::UnknownVariant {
                    index: variant,
                    count: self.variant_count() as usize,
                },
            )
        } else if values.len() != self.field_set(variant as int).fields().len() {
            Some(
                FormatError::WrongArity {
                    expected: self.field_set(variant as int).fields().len() as usize,
                    given: values.len() as usize,
                },
            )
        } else {
            first_input_error(self.field_set(variant as int).fields(), values, offsets, 0)
        }
    }

    /// The name of alternative `i` as it is shown. Names are rendered as they
    /// are written, then masked.
    pub open spec fn shown_name(self, i: int) -> Seq<char> {
        match masked(self.name_mask(i), self.variant_name(i)) {
            Some(text) => text,
            None => self.variant_name(i),
        }
    }

    /// The fields of alternative `i` that are shown for the given values.
    /// Each value is rendered, after noise where the field receives it, and
    /// the mask in force is applied to that text.
    pub open spec fn entries(self, i: int, values: Seq<FieldValue>, noise: Seq<i64>) -> Seq<Entry> {
        shown(
            items_of(
                self.field_set(i).shape(),
                self.field_set(i).fields(),
                self.resolution(i)->Ok_0.fields,
                values,
                noise,
            ),
        )
    }

    /// The output for a value of alternative `i` of a valid description.
    pub open spec fn rendering(self, i: int, values: Seq<FieldValue>, noise: Seq<i64>, alternate: bool)
        -> Seq<char> {
        layout(
            self.shown_name(i),
            self.field_set(i).shape(),
            self.entries(i, values, noise),
            alternate,
        )
    }
}

/// What registration settles for one alternative.
struct VariantRules {
    name_mask: Mask,
    fields: Vec<FieldDirective>,
}

/// The formatting routine of a registered type. It can only be had from
/// `register`, so the description inside has passed every rule.
pub struct Formatter {
    desc: TypeDescription,
    rules: Vec<VariantRules>,
}

/// Validates alternative `i` and resolves its directives.
fn resolve_variant(desc: &TypeDescription, i: usize) -> (r: Result<VariantRules, ValidationError>)
    requires
        i < desc.variant_count(),
    ensures
        match r {
            Ok(rules) => desc.resolution(i as int) is Ok && rules.name_mask == desc.name_mask(
                i as int,
            ) && rules.fields@ == desc.resolution(i as int)->Ok_0.fields,
            Err(e) => desc.resolution(i as int) == Err::<Resolution, _>(e),
        },
{
    let no_scopes = Scopes { name: None, all: None };
    let (scopes, field_set, inherited) = match &desc.body {
        TypeBody::Record(fs) => (no_scopes, fs, None),
        TypeBody::Union(vs) => {
            match collect_scopes(&vs[i].directives) {
                Err(rule) => {
                    return Err(ValidationError { site: Site::Variant(i), rule });
                },
                Ok(scopes) => (scopes, &vs[i].fields, desc.directive),
            }
        },
    };
    assert(collect(desc.instances(i as int)) == Ok::<_, Rule>(scopes));
    let name_mask = resolve_name_mask(
        &(if scopes.name.is_some() {
            scopes.name
        } else {
            inherited
        }),
    );
    match field_set.listed() {
        None => {
            if scopes.all.is_some() {
                return Err(ValidationError { site: Site::Variant(i), rule: Rule::UnitWithAll });
            }
            let fields: Vec<FieldDirective> = Vec::new();
            assert(fields@ == desc.resolution(i as int)->Ok_0.fields);
            Ok(VariantRules { name_mask, fields })
        },
        Some(list) => {
            if let Some((j, rule)) = check_fields(list) {
                return Err(ValidationError { site: Site::Field(i, j), rule });
            }
            let fields = resolve_fields(list, &scopes.all);
            Ok(VariantRules { name_mask, fields })
        },
    }
}

/// Registers a type: checks its description against every rule, at once, and
/// makes the formatter for it. A description that breaks a rule gives no
/// formatter; the error names the first violation in declaration order.
pub fn register(desc: TypeDescription) -> (r: Result<Formatter, ValidationError>)
    ensures
        match r {
            Ok(formatter) => desc.valid() && formatter.description() == desc,
            Err(e) => desc.first_violation() == Some(e),
        },
{
    if let Some(d) = &desc.directive {
        if let Some(rule) = check_top_level(d) {
            return Err(ValidationError { site: Site::Type, rule });
        }
    }
    let count = desc.count_variants();
    let mut rules: Vec<VariantRules> = Vec::new();
    let mut i: usize = 0;
    while i < count
        invariant
            i <= count == desc.variant_count(),
            desc.first_violation() == desc.first_violation_from(i as int),
            rules@.len() == i,
            forall|k: int|
                0 <= k < i ==> {
                    &&& desc.resolution(k) is Ok
                    &&& (#[trigger] rules@[k]).name_mask == desc.name_mask(k)
                    &&& rules@[k].fields@ == desc.resolution(k)->Ok_0.fields
                },
        decreases count - i,
    {
        match resolve_variant(&desc, i) {
            Err(e) => {
                return Err(e);
            },
            Ok(resolved) => {
                rules.push(resolved);
            },
        }
        i += 1;
    }
    Ok(Formatter { desc, rules })
}

/// The name of the positional field at `j`.
pub fn positional_label(j: usize) -> (name: String)
    ensures
        name@ == positional_name(j as nat),
{
    let mut name = String::new();
    push_char(&mut name, 'a');
    push_char(&mut name, 'r');
    push_char(&mut name, 'g');
    push_decimal(&mut name, j as u64);
    name
}

/// Finds the first field whose value cannot be used.
fn check_inputs(fields: &Vec<FieldDescription>, values: &Vec<FieldValue>, offsets: usize) -> (r:
    Option<FormatError>)
    requires
        fields.len() == values.len(),
    ensures
        r == first_input_error(fields@, values@, offsets as nat, 0),
{
    let mut j: usize = 0;
    while j < fields.len()
        invariant
            j <= fields.len() == values.len(),
            first_input_error(fields@, values@, offsets as nat, 0) == first_input_error(
                fields@,
                values@,
                offsets as nat,
                j as int,
            ),
        decreases fields.len() - j,
    {
        let declared = fields[j].kind;
        let same = match values[j].kind_of() {
            ValueKind::Numeric => matches!(declared, ValueKind::Numeric),
            ValueKind::Textual => matches!(declared, ValueKind::Textual),
            ValueKind::Opaque => matches!(declared, ValueKind::Opaque),
        };
        if !same {
            return Some(FormatError::KindMismatch { field: j });
        }
        if fields[j].noised && matches!(declared, ValueKind::Numeric) && j >= offsets {
            return Some(FormatError::MissingNoise { field: j });
        }
        j += 1;
    }
    None
}

/// Renders one value before masking, with noise where the field receives it.
fn render_value(f: &FieldDescription, d: &FieldDirective, v: &FieldValue, offset: i64) -> (out:
    String)
    ensures
        out@ == value_text(*f, *d, *v, offset as int),
{
    match v {
        FieldValue::Numeric(n) => {
            if f.noised && matches!(f.kind, ValueKind::Numeric) {
                decimal_text(apply_noise(*n, offset))
            } else {
                decimal_text(*n)
            }
        },
        _ => v.render(d.display),
    }
}

/// Renders and redacts the fields of one alternative, in declaration order.
fn render_entries(
    shape: Shape,
    fields: &Vec<FieldDescription>,
    directives: &Vec<FieldDirective>,
    values: &Vec<FieldValue>,
    noise: &Vec<i64>,
) -> (out: Vec<RenderedField>)
    requires
        fields.len() == directives.len() == values.len(),
        first_input_error(fields@, values@, noise@.len(), 0) is None,
    ensures
        entries_of(out@) == shown(items_of(shape, fields@, directives@, values@, noise@)),
{
    let ghost items = items_of(shape, fields@, directives@, values@, noise@);
    let mut out: Vec<RenderedField> = Vec::new();
    let mut j: usize = 0;
    assert(shown(items.take(0)) == entries_of(out@));
    while j < fields.len()
        invariant
            j <= fields.len() == directives.len() == values.len(),
            items == items_of(shape, fields@, directives@, values@, noise@),
            first_input_error(fields@, values@, noise@.len(), j as int) is None,
            entries_of(out@) == shown(items.take(j as int)),
        decreases fields.len() - j,
    {
        proof {
            let next = items.take(j + 1);
            assert(next.drop_last() == items.take(j as int));
            assert(next.last() == items[j as int]);
        }
        let ghost before = entries_of(out@);
        let directive = &directives[j];
        if let Mask::Skip = directive.mask {
        } else {
            let needs = fields[j].noised && matches!(fields[j].kind, ValueKind::Numeric);
            let offset: i64 = if needs {
                noise[j]
            } else {
                0
            };
            let raw = render_value(&fields[j], directive, &values[j], offset);
            assert(raw@ == items[j as int].text);
            if let Some(text) = redact_text(&directive.mask, raw.as_str()) {
                let name = match shape {
                    Shape::Positional => positional_label(j),
                    _ => fields[j].name.as_str().to_owned(),
                };
                out.push(RenderedField { name, text });
                assert(entries_of(out@) == before.push(
                    Entry { name: items[j as int].name, text: text@ },
                ));
            }
        }
        j += 1;
    }
    assert(items.take(fields.len() as int) == items);
    out
}

impl Formatter {
    #[verifier::type_invariant]
    spec fn well_formed(self) -> bool {
        &&& self.desc.valid()
        &&& self.rules@.len() == self.desc.variant_count()
        &&& forall|k: int|
            0 <= k < self.rules@.len() ==> {
                &&& self.desc.resolution(k) is Ok
                &&& (#[trigger] self.rules@[k]).name_mask == self.desc.name_mask(k)
                &&& self.rules@[k].fields@ == self.desc.resolution(k)->Ok_0.fields
            }
    }

    /// The description that this formatter was made from.
    pub closed spec fn description(self) -> TypeDescription {
        self.desc
    }

    /// The description that this formatter was made from. It is valid.
    pub fn described(&self) -> (desc: &TypeDescription)
        ensures
            *desc == self.description(),
            desc.valid(),
    {
        proof {
            use_type_invariant(self);
        }
        &self.desc
    }

    /// Says why the values cannot be formatted as alternative `variant`, if
    /// they cannot; `offsets` is the number of noise offsets at hand.
    pub fn check(&self, variant: usize, values: &Vec<FieldValue>, offsets: usize) -> (r: Option<
        FormatError,
    >)
        ensures
            r == self.description().input_error(variant, values@, offsets as nat),
    {
        let count = self.desc.count_variants();
        if variant >= count {
            return Some(FormatError::UnknownVariant { index: variant, count });
        }
        match self.desc.field_set_of(variant).listed() {
            None => {
                if values.len() != 0 {
                    return Some(FormatError::WrongArity { expected: 0, given: values.len() });
                }
                None
            },
            Some(fields) => {
                if values.len() != fields.len() {
                    return Some(
                        FormatError::WrongArity { expected: fields.len(), given: values.len() },
                    );
                }
                check_inputs(fields, values, offsets)
            },
        }
    }

    /// Formats a value of the registered type: `variant` says which
    /// alternative it is (0 for a record), `values` holds one value per field
    /// in declaration order, and `noise` the sampled offset for each field
    /// that receives noise, at the field's position. `alternate` asks for
    /// the pretty layout; it changes white space and punctuation only.
    pub fn format(&self, variant: usize, values: &Vec<FieldValue>, noise: &Vec<i64>, alternate: bool)
        -> (r: Result<String, FormatError>)
        ensures
            match r {
                Ok(out) => self.description().input_error(variant, values@, noise@.len()) is None
                    && out@ == self.description().rendering(
                    variant as int,
                    values@,
                    noise@,
                    alternate,
                ),
                Err(e) => self.description().input_error(variant, values@, noise@.len()) == Some(e),
            },
    {
        proof {
            use_type_invariant(self);
        }
        if let Some(e) = self.check(variant, values, noise.len()) {
            return Err(e);
        }
        let field_set = self.desc.field_set_of(variant);
        let rules = &self.rules[variant];
        let shape = field_set.shape_of();
        let name = self.desc.variant_name_of(variant);
        let shown_name = match redact_text(&rules.name_mask, name) {
            Some(text) => text,
            None => name.to_owned(),
        };
        let entries = match field_set.listed() {
            None => {
                let none: Vec<RenderedField> = Vec::new();
                assert(entries_of(none@) == self.desc.entries(variant as int, values@, noise@));
                none
            },
            Some(fields) => render_entries(shape, fields, &rules.fields, values, noise),
        };
        Ok(lay_out(shown_name.as_str(), shape, &entries, alternate))
    }
}

/// A skipped field is absent from what is shown: the entries are those of
/// the same fields without it, so neither its name nor its value has any
/// part in the output.
pub proof fn lemma_skipped_item_absent(items: Seq<Item>, j: int)
    requires
        0 <= j < items.len(),
        items[j].mask is Skip,
    ensures
        shown(items) == shown(items.remove(j)),
    decreases items.len(),
{
    if j == items.len() - 1 {
        assert(items.remove(j) == items.drop_last());
    } else {
        let rest = items.remove(j);
        assert(rest.last() == items.last());
        assert(rest.drop_last() == items.drop_last().remove(j));
        lemma_skipped_item_absent(items.drop_last(), j);
    }
}

/// What is shown does not depend on the value of a skipped field.
pub proof fn lemma_skipped_value_unused(
    shape: Shape,
    fields: Seq<FieldDescription>,
    directives: Seq<FieldDirective>,
    values: Seq<FieldValue>,
    noise: Seq<i64>,
    j: int,
    other: FieldValue,
)
    requires
        0 <= j < fields.len() == values.len(),
        directives[j].mask is Skip,
    ensures
        shown(items_of(shape, fields, directives, values, noise)) == shown(
            items_of(shape, fields, directives, values.update(j, other), noise),
        ),
{
    let before = items_of(shape, fields, directives, values, noise);
    let after = items_of(shape, fields, directives, values.update(j, other), noise);
    lemma_skipped_item_absent(before, j);
    lemma_skipped_item_absent(after, j);
    assert(before.remove(j) == after.remove(j));
}

} // verus!
