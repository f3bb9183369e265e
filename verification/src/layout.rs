//! The structured layout of a rendered value: a name, then the fields that
//! are shown, in the compact or in the pretty form. The two forms differ in
//! white space and punctuation only; the texts of the fields are the same.

use crate::model::Shape;
use crate::text::{chars_of, push_char};
use vstd::prelude::*;

verus! {

/// A field as it is shown: its name and its text after redaction.
pub struct Entry {
    pub name: Seq<char>,
    pub text: Seq<char>,
}

/// A field as it is shown, in executable form.
#[derive(Debug, PartialEq, Eq)]
pub struct RenderedField {
    pub name: String,
    pub text: String,
}

impl View for RenderedField {
    type V = Entry;

    open spec fn view(&self) -> Entry {
        Entry { name: self.name@, text: self.text@ }
    }
}

/// The entries of a list of rendered fields.
pub open spec fn entries_of(fields: Seq<RenderedField>) -> Seq<Entry> {
    Seq::new(fields.len(), |k: int| fields[k]@)
}

/// The indentation of one level in the pretty form.
pub open spec fn indent() -> Seq<char> {
    seq![' ', ' ', ' ', ' ']
}

/// `s` with the indentation inserted at the start of each of its lines.
pub open spec fn indented(s: Seq<char>) -> Seq<char>
    decreases s.len(),
{
    if s.len() == 0 {
        Seq::empty()
    } else if s.len() == 1 || s[s.len() - 2] == '\n' {
        indented(s.drop_last()) + indent() + seq![s.last()]
    } else {
        indented(s.drop_last()).push(s.last())
    }
}

/// One field with its label: `name: text` in a named shape, the text alone
/// otherwise.
pub open spec fn labelled(shape: Shape, e: Entry) -> Seq<char> {
    if shape is Named {
        e.name + seq![':', ' '] + e.text
    } else {
        e.text
    }
}

/// What one field adds to the output. In the compact form the first field
/// opens the body and the others follow a comma; in the pretty form each
/// field is a line of its own, indented, and the body is opened before.
pub open spec fn item(shape: Shape, e: Entry, first: bool, alternate: bool) -> Seq<char> {
    if alternate {
        indented(labelled(shape, e) + seq![',', '\n'])
    } else if !first {
        seq![',', ' '] + labelled(shape, e)
    } else if shape is Named {
        seq![' ', '{', ' '] + labelled(shape, e)
    } else {
        seq!['('] + labelled(shape, e)
    }
}

/// What the fields add to the output, in order.
pub open spec fn items(shape: Shape, entries: Seq<Entry>, alternate: bool) -> Seq<char>
    decreases entries.len(),
{
    if entries.len() == 0 {
        Seq::empty()
    } else {
        items(shape, entries.drop_last(), alternate) + item(
            shape,
            entries.last(),
            entries.len() == 1,
            alternate,
        )
    }
}

/// What opens the body in the pretty form; the compact form opens it with
/// the first field.
pub open spec fn opening(shape: Shape, alternate: bool) -> Seq<char> {
    if !alternate {
        Seq::empty()
    } else if shape is Named {
        seq![' ', '{', '\n']
    } else {
        seq!['(', '\n']
    }
}

/// What closes the body. A single positional field under an empty name is
/// followed by a comma in the compact form.
pub open spec fn closing(shape: Shape, name: Seq<char>, count: nat, alternate: bool) -> Seq<char> {
    if shape is Named {
        if alternate {
            seq!['}']
        } else {
            seq![' ', '}']
        }
    } else if !alternate && count == 1 && name.len() == 0 {
        seq![',', ')']
    } else {
        seq![')']
    }
}

/// The whole output for a name and the fields that are shown. With no field
/// to show, and for a unit shape, the output is the name alone.
pub open spec fn layout(name: Seq<char>, shape: Shape, entries: Seq<Entry>, alternate: bool) -> Seq<
    char,
> {
    if shape is Unit || entries.len() == 0 {
        name
    } else {
        name + opening(shape, alternate) + items(shape, entries, alternate) + closing(
            shape,
            name,
            entries.len(),
            alternate,
        )
    }
}

/// Appends `text`.
pub fn push_text(out: &mut String, text: &str)
    ensures
        final(out)@ == old(out)@ + text@,
{
    let chars = chars_of(text);
    let mut i: usize = 0;
    while i < chars.len()
        invariant
            i <= chars.len(),
            out@ == old(out)@ + chars@.take(i as int),
        decreases chars.len() - i,
    {
        push_char(out, chars[i]);
        i += 1;
        assert(out@ == old(out)@ + chars@.take(i as int));
    }
    assert(chars@.take(chars.len() as int) == chars@);
}

/// Appends `text` with the indentation at the start of each of its lines.
pub fn push_indented(out: &mut String, text: &str)
    ensures
        final(out)@ == old(out)@ + indented(text@),
{
    let chars = chars_of(text);
    let mut at_line_start = true;
    let mut i: usize = 0;
    while i < chars.len()
        invariant
            i <= chars.len(),
            out@ == old(out)@ + indented(chars@.take(i as int)),
            at_line_start == (i == 0 || chars@[i - 1] == '\n'),
        decreases chars.len() - i,
    {
        let ghost before = out@;
        if at_line_start {
            push_char(out, ' ');
            push_char(out, ' ');
            push_char(out, ' ');
            push_char(out, ' ');
        }
        push_char(out, chars[i]);
        at_line_start = chars[i] == '\n';
        i += 1;
        proof {
            let now = chars@.take(i as int);
            assert(now.drop_last() == chars@.take(i - 1));
            assert(now.last() == chars@[i - 1]);
            if i == 1 || chars@[i - 2] == '\n' {
                assert(out@ == before + indent() + seq![now.last()]);
            } else {
                assert(out@ == before.push(now.last()));
            }
            assert(out@ == old(out)@ + indented(now));
        }
    }
    assert(chars@.take(chars.len() as int) == chars@);
}

/// Appends one field with its label.
pub fn push_labelled(out: &mut String, shape: Shape, field: &RenderedField)
    ensures
        final(out)@ == old(out)@ + labelled(shape, field@),
{
    if let Shape::Named = shape {
        push_text(out, field.name.as_str());
        push_char(out, ':');
        push_char(out, ' ');
        push_text(out, field.text.as_str());
        assert(out@ == old(out)@ + (field@.name + seq![':', ' '] + field@.text));
    } else {
        push_text(out, field.text.as_str());
    }
}

/// Appends what one field adds to the output.
pub fn push_item(
    out: &mut String,
    shape: Shape,
    field: &RenderedField,
    first: bool,
    alternate: bool,
)
    ensures
        final(out)@ == old(out)@ + item(shape, field@, first, alternate),
{
    if alternate {
        let mut line = String::new();
        push_labelled(&mut line, shape, field);
        push_char(&mut line, ',');
        push_char(&mut line, '\n');
        assert(line@ == labelled(shape, field@) + seq![',', '\n']);
        push_indented(out, line.as_str());
    } else {
        let ghost lead: Seq<char>;
        if !first {
            push_char(out, ',');
            push_char(out, ' ');
            proof {
                lead = seq![',', ' '];
            }
        } else if let Shape::Named = shape {
            push_char(out, ' ');
            push_char(out, '{');
            push_char(out, ' ');
            proof {
                lead = seq![' ', '{', ' '];
            }
        } else {
            push_char(out, '(');
            proof {
                lead = seq!['('];
            }
        }
        assert(out@ == old(out)@ + lead);
        push_labelled(out, shape, field);
        assert(out@ == old(out)@ + (lead + labelled(shape, field@)));
    }
}

/// Lays out a name and the fields that are shown.
pub fn lay_out(name: &str, shape: Shape, fields: &Vec<RenderedField>, alternate: bool) -> (out:
    String)
    ensures
        out@ == layout(name@, shape, entries_of(fields@), alternate),
{
    let mut out = String::new();
    push_text(&mut out, name);
    if fields.len() == 0 {
        return out;
    }
    let named = match shape {
        Shape::Unit => {
            return out;
        },
        Shape::Named => true,
        Shape::Positional => false,
    };
    if alternate {
        if named {
            push_char(&mut out, ' ');
            push_char(&mut out, '{');
        } else {
            push_char(&mut out, '(');
        }
        push_char(&mut out, '\n');
    }
    assert(out@ == name@ + opening(shape, alternate));
    let ghost entries = entries_of(fields@);
    let mut k: usize = 0;
    while k < fields.len()
        invariant
            k <= fields.len(),
            entries == entries_of(fields@),
            out@ == name@ + opening(shape, alternate) + items(
                shape,
                entries.take(k as int),
                alternate,
            ),
        decreases fields.len() - k,
    {
        proof {
            let next = entries.take(k + 1);
            assert(next.drop_last() == entries.take(k as int));
            assert(next.last() == fields@[k as int]@);
        }
        push_item(&mut out, shape, &fields[k], k == 0, alternate);
        k += 1;
    }
    assert(entries.take(fields.len() as int) == entries);
    let ghost body = out@;
    if named {
        if !alternate {
            push_char(&mut out, ' ');
        }
        push_char(&mut out, '}');
    } else {
        if !alternate && fields.len() == 1 && name.unicode_len() == 0 {
            push_char(&mut out, ',');
        }
        push_char(&mut out, ')');
    }
    assert(out@ == body + closing(shape, name@, entries.len(), alternate));
    out
}

} // verus!
