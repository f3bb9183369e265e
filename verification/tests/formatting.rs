use veil::directive::{Directive, Mask, PartialMask};
use veil::formatter::{register, FormatError};
use veil::mask::redact_text;
use veil::model::{FieldDescription, FieldSet, TypeBody, TypeDescription, ValueKind};
use veil::redactable::{BoundValue, Redactable};
use veil::value::FieldValue;

fn plain() -> Directive {
    Directive { skip: false, fixed: None, partial: None, all: false, variant: false, display: false }
}

fn field(name: &str, kind: ValueKind, directive: Option<Directive>) -> FieldDescription {
    FieldDescription { name: name.to_string(), kind, directive, noised: false }
}

fn record(name: &str, fields: Vec<FieldDescription>) -> TypeDescription {
    TypeDescription {
        name: name.to_string(),
        generics: Vec::new(),
        directive: None,
        body: TypeBody::Record(FieldSet::Named(fields)),
    }
}

#[test]
fn fixed_three_hides_a_two_character_value() {
    let fixed = Directive { fixed: Some(3), ..plain() };
    let desc = record("Reading", vec![field("value", ValueKind::Textual, Some(fixed))]);
    let formatter = register(desc).unwrap();
    let out = formatter
        .format(0, &vec![FieldValue::Textual("42".to_string())], &Vec::new(), false)
        .unwrap();
    assert_eq!(out, "Reading { value: *** }");
    assert_eq!(redact_text(&Mask::Fixed(3), "42"), Some("***".to_string()));
}

#[test]
fn skipped_field_is_left_out() {
    let skip = Directive { skip: true, ..plain() };
    let desc = record(
        "Login",
        vec![
            field("user", ValueKind::Textual, None),
            field("password", ValueKind::Textual, Some(skip)),
            field("attempts", ValueKind::Numeric, None),
        ],
    );
    let formatter = register(desc).unwrap();
    let values = vec![
        FieldValue::Textual("ada".to_string()),
        FieldValue::Textual("hunter2".to_string()),
        FieldValue::Numeric(3),
    ];
    let out = formatter.format(0, &values, &Vec::new(), false).unwrap();
    assert_eq!(out, "Login { user: \"ada\", attempts: 3 }");
    assert!(!out.contains("password"));
    assert!(!out.contains("hunter2"));
}

#[test]
fn pretty_layout_changes_white_space_only() {
    let partial = Directive {
        partial: Some(PartialMask { front: 1, back: 1, mask: '#' }),
        display: true,
        ..plain()
    };
    let desc = record(
        "Card",
        vec![field("holder", ValueKind::Textual, Some(partial)), field("cvc", ValueKind::Numeric, None)],
    );
    let formatter = register(desc).unwrap();
    let values = vec![FieldValue::Textual("Lovelace".to_string()), FieldValue::Numeric(-7)];
    let compact = formatter.format(0, &values, &Vec::new(), false).unwrap();
    let pretty = formatter.format(0, &values, &Vec::new(), true).unwrap();
    assert_eq!(compact, "Card { holder: L######e, cvc: -7 }");
    assert_eq!(pretty, "Card {\n    holder: L######e,\n    cvc: -7,\n}");
}

#[test]
fn bound_value_redacts_into_a_buffer() {
    let desc = record("Point", vec![field("x", ValueKind::Numeric, None)]);
    let formatter = register(desc).unwrap();
    let bound = BoundValue::new(&formatter, 0, vec![FieldValue::Numeric(12)], Vec::new(), false).unwrap();
    assert_eq!(bound.redact(), "Point { x: 12 }");
    let mut buffer = String::from("> ");
    bound.redact_into(&mut buffer);
    assert_eq!(buffer, "> Point { x: 12 }");
    let refused = BoundValue::new(&formatter, 0, Vec::new(), Vec::new(), false);
    assert!(matches!(refused, Err(FormatError::WrongArity { expected: 1, given: 0 })));
}
