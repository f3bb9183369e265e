use veil::formatter::register;
use veil::model::{
    FieldDescription, FieldSet, TypeBody, TypeDescription, ValueKind, VariantDescription,
};
use veil::value::FieldValue;

#[allow(dead_code)]
#[derive(Debug)]
struct Sample {
    id: i64,
    name: String,
}

#[allow(dead_code)]
#[derive(Debug)]
enum Shape {
    Circle(i64),
    Rect { w: i64, h: i64 },
    Empty,
}

fn field(name: &str, kind: ValueKind) -> FieldDescription {
    FieldDescription { name: name.to_string(), kind, directive: None, noised: false }
}

#[test]
fn record_without_directives_is_laid_out_as_the_host_does() {
    let desc = TypeDescription {
        name: "Sample".to_string(),
        generics: Vec::new(),
        directive: None,
        body: TypeBody::Record(FieldSet::Named(vec![
            field("id", ValueKind::Numeric),
            field("name", ValueKind::Textual),
        ])),
    };
    let f = register(desc).unwrap();
    let host = Sample { id: -12, name: "tab\there \u{1F600} 'q' \"dq\" \\ \u{7f}".to_string() };
    let values = vec![FieldValue::Numeric(host.id), FieldValue::Textual(host.name.clone())];
    assert_eq!(f.format(0, &values, &Vec::new(), false).unwrap(), format!("{:?}", host));
    assert_eq!(f.format(0, &values, &Vec::new(), true).unwrap(), format!("{:#?}", host));
}

#[test]
fn union_without_directives_is_laid_out_as_the_host_does() {
    let variant = |name: &str, fields: FieldSet| VariantDescription {
        name: name.to_string(),
        directives: Vec::new(),
        fields,
    };
    let desc = TypeDescription {
        name: "Shape".to_string(),
        generics: Vec::new(),
        directive: None,
        body: TypeBody::Union(vec![
            variant("Circle", FieldSet::Positional(vec![field("", ValueKind::Numeric)])),
            variant(
                "Rect",
                FieldSet::Named(vec![field("w", ValueKind::Numeric), field("h", ValueKind::Numeric)]),
            ),
            variant("Empty", FieldSet::Unit),
        ]),
    };
    let f = register(desc).unwrap();
    let cases = [
        (0, Shape::Circle(3), vec![FieldValue::Numeric(3)]),
        (1, Shape::Rect { w: 4, h: i64::MIN }, vec![FieldValue::Numeric(4), FieldValue::Numeric(i64::MIN)]),
        (2, Shape::Empty, Vec::new()),
    ];
    for (index, host, values) in cases {
        assert_eq!(f.format(index, &values, &Vec::new(), false).unwrap(), format!("{:?}", host));
        assert_eq!(f.format(index, &values, &Vec::new(), true).unwrap(), format!("{:#?}", host));
    }
}

#[test]
fn integers_are_rendered_in_decimal() {
    let desc = TypeDescription {
        name: "N".to_string(),
        generics: Vec::new(),
        directive: None,
        body: TypeBody::Record(FieldSet::Positional(vec![field("", ValueKind::Numeric)])),
    };
    let f = register(desc).unwrap();
    for n in [0i64, 7, 10, 99, 100, -1, -10, 1234567890, i64::MAX, i64::MIN] {
        assert_eq!(
            f.format(0, &vec![FieldValue::Numeric(n)], &Vec::new(), false).unwrap(),
            format!("N({})", n)
        );
    }
}
