use veil::directive::{Directive, MaskOption, PartialMask};
use veil::formatter::register;
use veil::model::{
    FieldDescription, FieldSet, TypeBody, TypeDescription, ValueKind, VariantDescription,
};
use veil::parser::parse_directive;
use veil::validate::{Rule, Scope, Site, ValidationError};

fn plain() -> Directive {
    Directive { skip: false, fixed: None, partial: None, all: false, variant: false, display: false }
}

fn field(name: &str, directive: Option<Directive>) -> FieldDescription {
    FieldDescription { name: name.to_string(), kind: ValueKind::Textual, directive, noised: false }
}

fn variant(name: &str, directives: Vec<Directive>, fields: FieldSet) -> VariantDescription {
    VariantDescription { name: name.to_string(), directives, fields }
}

fn union(directive: Option<Directive>, variants: Vec<VariantDescription>) -> TypeDescription {
    TypeDescription {
        name: "Event".to_string(),
        generics: vec!["T".to_string()],
        directive,
        body: TypeBody::Union(variants),
    }
}

fn record(directive: Option<Directive>, fields: Vec<FieldDescription>) -> TypeDescription {
    TypeDescription {
        name: "Patient".to_string(),
        generics: Vec::new(),
        directive,
        body: TypeBody::Record(FieldSet::Named(fields)),
    }
}

fn rejected(desc: TypeDescription) -> ValidationError {
    match register(desc) {
        Ok(_) => panic!("the description was accepted"),
        Err(e) => e,
    }
}

#[test]
fn top_level_directive_needs_all_and_variant() {
    for d in [
        plain(),
        Directive { all: true, ..plain() },
        Directive { variant: true, ..plain() },
        Directive { fixed: Some(3), ..plain() },
        Directive { all: true, display: true, ..plain() },
    ] {
        let e = rejected(union(Some(d), vec![variant("A", Vec::new(), FieldSet::Unit)]));
        assert_eq!(e, ValidationError { site: Site::Type, rule: Rule::TopLevelIncomplete });
        let e = rejected(record(Some(d), vec![field("a", None)]));
        assert_eq!(e, ValidationError { site: Site::Type, rule: Rule::TopLevelIncomplete });
    }
}

#[test]
fn top_level_directive_with_both_is_accepted() {
    let d = Directive { all: true, variant: true, fixed: Some(4), ..plain() };
    assert!(register(union(Some(d), vec![variant("A", Vec::new(), FieldSet::Unit)])).is_ok());
}

#[test]
fn display_is_invalid_on_a_name() {
    let top = Directive { all: true, variant: true, display: true, ..plain() };
    let e = rejected(union(Some(top), Vec::new()));
    assert_eq!(e, ValidationError { site: Site::Type, rule: Rule::DisplayOnName });
    let local = Directive { variant: true, display: true, ..plain() };
    let e = rejected(union(None, vec![variant("A", vec![local], FieldSet::Unit)]));
    assert_eq!(e, ValidationError { site: Site::Variant(0), rule: Rule::DisplayOnName });
}

#[test]
fn display_is_valid_on_an_all_directive() {
    let all = Directive { all: true, display: true, ..plain() };
    let fields = FieldSet::Named(vec![field("a", None)]);
    assert!(register(union(None, vec![variant("A", vec![all], fields)])).is_ok());
}

#[test]
fn all_and_variant_in_one_instance_are_rejected() {
    let both = Directive { all: true, variant: true, ..plain() };
    let fields = || FieldSet::Named(vec![field("a", None)]);
    let e = rejected(union(None, vec![variant("A", vec![both], fields())]));
    assert_eq!(e, ValidationError { site: Site::Variant(0), rule: Rule::CombinedScopes });
    let all = Directive { all: true, ..plain() };
    let e = rejected(union(
        None,
        vec![variant("A", Vec::new(), fields()), variant("B", vec![all, both], fields())],
    ));
    assert_eq!(e, ValidationError { site: Site::Variant(1), rule: Rule::CombinedScopes });
    let e = rejected(record(None, vec![field("a", None), field("b", Some(both))]));
    assert_eq!(e, ValidationError { site: Site::Field(0, 1), rule: Rule::CombinedScopes });
}

#[test]
fn a_second_directive_of_one_scope_is_a_duplicate() {
    let all = Directive { all: true, fixed: Some(1), ..plain() };
    let name = Directive { variant: true, fixed: Some(2), ..plain() };
    let fields = || FieldSet::Positional(vec![field("", None)]);
    let e = rejected(union(None, vec![variant("A", vec![all, all], fields())]));
    assert_eq!(
        e,
        ValidationError { site: Site::Variant(0), rule: Rule::DuplicateDirective(Scope::All) }
    );
    let e = rejected(union(None, vec![variant("A", vec![name, all, name], fields())]));
    assert_eq!(
        e,
        ValidationError { site: Site::Variant(0), rule: Rule::DuplicateDirective(Scope::Variant) }
    );
    assert!(register(union(None, vec![variant("A", vec![name, all], fields())])).is_ok());
    assert!(register(union(None, vec![variant("A", vec![all, name], fields())])).is_ok());
}

#[test]
fn a_directive_on_a_variant_needs_a_scope() {
    let neither = Directive { fixed: Some(2), ..plain() };
    let e = rejected(union(None, vec![variant("A", vec![neither], FieldSet::Unit)]));
    assert_eq!(e, ValidationError { site: Site::Variant(0), rule: Rule::MissingScope });
}

#[test]
fn a_unit_variant_takes_no_all_directive() {
    let all = Directive { all: true, ..plain() };
    let e = rejected(union(
        None,
        vec![variant("A", Vec::new(), FieldSet::Unit), variant("B", vec![all], FieldSet::Unit)],
    ));
    assert_eq!(e, ValidationError { site: Site::Variant(1), rule: Rule::UnitWithAll });
    let name = Directive { variant: true, ..plain() };
    assert!(register(union(None, vec![variant("B", vec![name], FieldSet::Unit)])).is_ok());
}

#[test]
fn two_masking_options_conflict() {
    let p = PartialMask { front: 1, back: 1, mask: '*' };
    let cases = [
        (Directive { skip: true, fixed: Some(1), ..plain() }, MaskOption::Skip, MaskOption::Fixed),
        (
            Directive { skip: true, partial: Some(p), ..plain() },
            MaskOption::Skip,
            MaskOption::Partial,
        ),
        (
            Directive { fixed: Some(1), partial: Some(p), ..plain() },
            MaskOption::Fixed,
            MaskOption::Partial,
        ),
        (
            Directive { skip: true, fixed: Some(1), partial: Some(p), ..plain() },
            MaskOption::Skip,
            MaskOption::Fixed,
        ),
    ];
    for (d, first, second) in cases {
        let e = rejected(record(None, vec![field("a", None), field("b", Some(d))]));
        assert_eq!(
            e,
            ValidationError {
                site: Site::Field(0, 1),
                rule: Rule::ConflictingMasks(first, second),
            }
        );
        let e = rejected(union(
            None,
            vec![variant("A", vec![Directive { all: true, ..d }], FieldSet::Unit)],
        ));
        assert_eq!(
            e,
            ValidationError {
                site: Site::Variant(0),
                rule: Rule::ConflictingMasks(first, second),
            }
        );
    }
}

#[test]
fn the_first_violation_in_declaration_order_is_reported() {
    let both = Directive { all: true, variant: true, ..plain() };
    let clash = Directive { skip: true, fixed: Some(1), ..plain() };
    let desc = union(
        None,
        vec![
            variant("A", Vec::new(), FieldSet::Named(vec![field("x", None), field("y", Some(clash))])),
            variant("B", vec![both], FieldSet::Unit),
        ],
    );
    let e = rejected(desc);
    assert_eq!(e.site, Site::Field(0, 1));
    let top = Directive { all: true, ..plain() };
    let desc = union(Some(top), vec![variant("B", vec![both], FieldSet::Unit)]);
    assert_eq!(rejected(desc).site, Site::Type);
}

#[test]
fn violations_are_described_with_the_name_of_the_item() {
    let clash = parse_directive("skip, fixed=2").unwrap();
    let desc = record(None, vec![field("id", None), field("age", Some(clash))]);
    let e = ValidationError {
        site: Site::Field(0, 1),
        rule: Rule::ConflictingMasks(MaskOption::Skip, MaskOption::Fixed),
    };
    assert_eq!(e.message(&desc), "Patient.age: skip conflicts with fixed");
    assert_eq!(rejected(desc), e);

    let all = Directive { all: true, ..plain() };
    let desc = union(
        None,
        vec![
            variant("Created", Vec::new(), FieldSet::Positional(vec![field("", None), field("", None)])),
            variant("Deleted", vec![all], FieldSet::Unit),
        ],
    );
    let unit = ValidationError { site: Site::Variant(1), rule: Rule::UnitWithAll };
    assert_eq!(
        unit.message(&desc),
        "Deleted: a unit variant needs no `all` directive, it holds no data"
    );
    let positional = ValidationError { site: Site::Field(0, 1), rule: Rule::CombinedScopes };
    assert_eq!(
        positional.message(&desc),
        "Created.arg1: `all` and `variant` in one directive are invalid, split them into two directives"
    );
    let top = ValidationError { site: Site::Type, rule: Rule::TopLevelIncomplete };
    assert_eq!(
        top.message(&desc),
        "Event: a directive on the type has to set both `all` and `variant`, to redact every variant name"
    );
    let elsewhere = ValidationError { site: Site::Variant(9), rule: Rule::MissingScope };
    assert_eq!(
        elsewhere.message(&desc),
        "Event: a directive on a variant has to set `all` or `variant`"
    );
    let duplicate = ValidationError {
        site: Site::Variant(0),
        rule: Rule::DuplicateDirective(Scope::Variant),
    };
    assert_eq!(duplicate.message(&desc), "Created: a `variant` directive is already present");
    let duplicate = ValidationError {
        site: Site::Variant(0),
        rule: Rule::DuplicateDirective(Scope::All),
    };
    assert_eq!(duplicate.message(&desc), "Created: an `all` directive is already present");
    let display = ValidationError { site: Site::Variant(1), rule: Rule::DisplayOnName };
    assert_eq!(
        display.message(&desc),
        "Deleted: `display` is invalid on a directive that redacts a name"
    );
}

#[test]
fn a_registered_formatter_keeps_its_description() {
    let desc = record(None, vec![field("id", None)]);
    let formatter = register(desc).unwrap();
    assert_eq!(formatter.described().name, "Patient");
}
