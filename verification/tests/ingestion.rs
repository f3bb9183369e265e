use veil::ingest::{ingest_row, last_row, parse_integer, IngestError};
use veil::model::{FieldDescription, ValueKind};
use veil::value::FieldValue;

fn field(name: &str, kind: ValueKind) -> FieldDescription {
    FieldDescription { name: name.to_string(), kind, directive: None, noised: false }
}

fn texts(row: &[&str]) -> Vec<String> {
    row.iter().map(|s| s.to_string()).collect()
}

#[test]
fn no_rows_is_an_empty_input() {
    let rows: Vec<Vec<String>> = Vec::new();
    assert_eq!(last_row(&rows), Err(IngestError::EmptyInput));
}

#[test]
fn a_last_row_without_fields_is_an_empty_input() {
    let rows = vec![texts(&["1", "2"]), Vec::new()];
    assert_eq!(last_row(&rows), Err(IngestError::EmptyInput));
}

#[test]
fn the_last_row_stands_for_the_record() {
    let rows = vec![texts(&["1", "50"]), texts(&["2", "61"])];
    assert_eq!(last_row(&rows), Ok(&texts(&["2", "61"])));
}

#[test]
fn integers_are_read_exactly() {
    assert_eq!(parse_integer("0"), Some(0));
    assert_eq!(parse_integer("50"), Some(50));
    assert_eq!(parse_integer("+50"), Some(50));
    assert_eq!(parse_integer("-50"), Some(-50));
    assert_eq!(parse_integer("007"), Some(7));
    assert_eq!(parse_integer("9223372036854775807"), Some(i64::MAX));
    assert_eq!(parse_integer("-9223372036854775808"), Some(i64::MIN));
}

#[test]
fn what_is_not_an_integer_is_not_read() {
    for text in [
        "",
        "-",
        "+",
        " 5",
        "5 ",
        "70.0",
        "1e3",
        "--5",
        "five",
        "9223372036854775808",
        "-9223372036854775809",
        "99999999999999999999999999999999999999999999",
    ] {
        assert_eq!(parse_integer(text), None, "{}", text);
    }
}

#[test]
fn a_row_is_read_field_by_field() {
    let fields = vec![
        field("id", ValueKind::Numeric),
        field("name", ValueKind::Textual),
        field("note", ValueKind::Opaque),
    ];
    assert_eq!(
        ingest_row(&fields, &texts(&["7", "Ada", "n/a"])),
        Ok(vec![
            FieldValue::Numeric(7),
            FieldValue::Textual("Ada".to_string()),
            FieldValue::Opaque("n/a".to_string()),
        ])
    );
    assert_eq!(
        ingest_row(&fields, &texts(&["7", "Ada"])),
        Err(IngestError::WrongArity { expected: 3, given: 2 })
    );
    assert_eq!(
        ingest_row(&fields, &texts(&["seven", "Ada", "n/a"])),
        Err(IngestError::InvalidNumber { field: 0 })
    );
    let numbers = vec![field("a", ValueKind::Numeric), field("b", ValueKind::Numeric)];
    assert_eq!(
        ingest_row(&numbers, &texts(&["1", "70.0"])),
        Err(IngestError::InvalidNumber { field: 1 })
    );
    assert_eq!(ingest_row(&Vec::new(), &Vec::new()), Ok(Vec::new()));
}
