//! From the raw texts of a row to the typed values of a record. Where the
//! rows come from is the caller's business; what is decided here is which
//! row stands for the record, and how the text of each field is read.

use crate::model::{FieldDescription, ValueKind};
use crate::parser::{digits_value, lemma_digits_value_grows, scan, span_end, CharClass};
use crate::text::chars_of;
use crate::value::FieldValue;
use vstd::prelude::*;

verus! {

/// Why a row cannot be taken in.
#[derive(Clone, Copy, Debug, PartialEq, Eq)]
pub enum IngestError {
    /// There is no row, or the row that stands for the record has no field.
    EmptyInput,
    /// The row does not have one text per field.
    WrongArity { expected: usize, given: usize },
    /// The text of this numeric field is not an integer.
    InvalidNumber { field: usize },
}

/// Whether `c` is a decimal digit.
pub open spec fn in_digit(c: char) -> bool {
    crate::parser::in_class(CharClass::Digit, c)
}

/// The integer that a text stands for: an optional sign, then decimal digits
/// and nothing else, within 64 bits.
pub open spec fn integer_of(s: Seq<char>) -> Option<int> {
    let signed = s.len() > 0 && (s[0] == '-' || s[0] == '+');
    let start: int = if signed {
        1
    } else {
        0
    };
    let magnitude = digits_value(s.subrange(start, s.len() as int)) as int;
    let value = if signed && s[0] == '-' {
        -magnitude
    } else {
        magnitude
    };
    if start < s.len() && span_end(s, CharClass::Digit, start) == s.len() && i64::MIN <= value
        <= i64::MAX {
        Some(value)
    } else {
        None
    }
}

/// The typed value that a raw text gives for a field of the given kind.
pub open spec fn typed(kind: ValueKind, raw: String) -> Option<FieldValue> {
    match kind {
        ValueKind::Numeric => match integer_of(raw@) {
            Some(v) => Some(FieldValue::Numeric(v as i64)),
            None => None,
        },
        ValueKind::Textual => Some(FieldValue::Textual(raw)),
        ValueKind::Opaque => Some(FieldValue::Opaque(raw)),
    }
}

/// The first field from `from` on whose text cannot be read.
pub open spec fn first_unreadable(fields: Seq<FieldDescription>, row: Seq<String>, from: int)
    -> Option<int>
    decreases fields.len() - from,
{
    if from < 0 || from >= fields.len() {
        None
    } else if typed(fields[from].kind, row[from]) is None {
        Some(from)
    } else {
        first_unreadable(fields, row, from + 1)
    }
}

/// The typed values of a row that can be read.
pub open spec fn typed_row(fields: Seq<FieldDescription>, row: Seq<String>) -> Seq<FieldValue> {
    Seq::new(fields.len(), |j: int| typed(fields[j].kind, row[j])->0)
}

/// Picks the row that stands for the record: the last one. No row at all, or
/// a last row without fields, is an error and never a record of defaults.
pub fn last_row(rows: &Vec<Vec<String>>) -> (r: Result<&Vec<String>, IngestError>)
    ensures
        match r {
            Ok(row) => rows@.len() > 0 && *row == rows@.last() && row@.len() > 0,
            Err(e) => e == IngestError::EmptyInput && (rows@.len() == 0 || rows@.last()@.len()
                == 0),
        },
{
    if rows.len() == 0 {
        return Err(IngestError::EmptyInput);
    }
    let row = &rows[rows.len() - 1];
    if row.len() == 0 {
        return Err(IngestError::EmptyInput);
    }
    Ok(row)
}

/// Reads an integer: an optional sign, then decimal digits and nothing else.
pub fn parse_integer(text: &str) -> (r: Option<i64>)
    ensures
        match r {
            Some(v) => integer_of(text@) == Some(v as int),
            None => integer_of(text@) is None,
        },
{
    let chars = chars_of(text);
    let len = chars.len();
    let negative = len > 0 && chars[0] == '-';
    let start: usize = if len > 0 && (chars[0] == '-' || chars[0] == '+') {
        1
    } else {
        0
    };
    if start >= len {
        return None;
    }
    let end = scan(&chars, CharClass::Digit, start);
    if end != len {
        return None;
    }
    let ghost digits = chars@.subrange(start as int, len as int);
    let limit: u128 = 0x8000_0000_0000_0000;
    let mut value: u128 = 0;
    let mut k: usize = start;
    assert(digits.take(0) == Seq::<char>::empty());
    while k < len
        invariant
            start <= k <= len == chars.len(),
            chars@ == text@,
            start == (if len > 0 && (chars@[0] == '-' || chars@[0] == '+') {
                1int
            } else {
                0int
            }),
            digits == chars@.subrange(start as int, len as int),
            forall|j: int| 0 <= j < digits.len() ==> in_digit(#[trigger] digits[j]),
            value == digits_value(digits.take(k - start)),
            value <= limit == 0x8000_0000_0000_0000,
        decreases len - k,
    {
        let c = chars[k];
        assert(in_digit(digits[k - start]));
        let digit: u128 = (c as u32 - '0' as u32) as u128;
        proof {
            let longer = digits.take(k - start + 1);
            assert(longer.drop_last() == digits.take(k - start));
            assert(longer.last() == c);
        }
        value = value * 10 + digit;
        k += 1;
        assert(value == digits_value(digits.take(k - start)));
        if value > limit {
            proof {
                lemma_digits_value_grows(digits, k - start);
            }
            return None;
        }
    }
    assert(digits.take(len - start) == digits);
    if negative {
        if value == limit {
            Some(i64::MIN)
        } else {
            Some(-(value as i64))
        }
    } else if value == limit {
        None
    } else {
        Some(value as i64)
    }
}

/// Reads the raw text of one field as a value of the field's kind.
pub fn type_value(kind: ValueKind, raw: &String) -> (r: Option<FieldValue>)
    ensures
        r == typed(kind, *raw),
{
    match kind {
        ValueKind::Numeric => match parse_integer(raw.as_str()) {
            Some(v) => Some(FieldValue::Numeric(v)),
            None => None,
        },
        ValueKind::Textual => Some(FieldValue::Textual(raw.clone())),
        ValueKind::Opaque => Some(FieldValue::Opaque(raw.clone())),
    }
}

/// Reads a row as the values of the given fields, in declaration order. The
/// row has to hold one text per field, and the text of every numeric field
/// has to be an integer; the error names the first field that is not.
pub fn ingest_row(fields: &Vec<FieldDescription>, row: &Vec<String>) -> (r: Result<
    Vec<FieldValue>,
    IngestError,
>)
    ensures
        match r {
            Ok(values) => row@.len() == fields@.len() && first_unreadable(fields@, row@, 0)
                is None && values@ == typed_row(fields@, row@),
            Err(IngestError::WrongArity { expected, given }) => row@.len() != fields@.len()
                && expected == fields@.len() && given == row@.len(),
            Err(IngestError::InvalidNumber { field }) => row@.len() == fields@.len()
                && first_unreadable(fields@, row@, 0) == Some(field as int),
            Err(IngestError::EmptyInput) => false,
        },
{
    if row.len() != fields.len() {
        return Err(IngestError::WrongArity { expected: fields.len(), given: row.len() });
    }
    let mut values: Vec<FieldValue> = Vec::new();
    let mut j: usize = 0;
    while j < fields.len()
        invariant
            j <= fields.len() == row.len(),
            first_unreadable(fields@, row@, 0) == first_unreadable(fields@, row@, j as int),
            values@ == typed_row(fields@, row@).take(j as int),
        decreases fields.len() - j,
    {
        match type_value(fields[j].kind, &row[j]) {
            Some(v) => {
                values.push(v);
            },
            None => {
                return Err(IngestError::InvalidNumber { field: j });
            },
        }
        j += 1;
    }
    Ok(values)
}

} // verus!
