//! The directive parser: from the text of one directive instance to the
//! options it sets.
//!
//! A directive is a list of options separated by commas:
//! `skip`, `all`, `variant`, `display`, `fixed = <n>` and
//! `partial(front = <n>, back = <n>, char = <c>)`. White space may stand
//! around every word, number and punctuation mark. An option that is given
//! again replaces what it set before. The grammar is written down as spec
//! functions on the characters of the text, and the parser is proved to
//! compute exactly what they say.

use crate::directive::{Directive, PartialMask};
use crate::text::chars_of;
use vstd::prelude::*;

verus! {

/// The error of a text that is not a list of recognized options.
#[derive(Clone, Copy, Debug, PartialEq, Eq)]
pub struct MalformedDirective;

/// The classes of characters that the grammar tells apart.
#[derive(Clone, Copy, Debug, PartialEq, Eq)]
pub enum CharClass {
    Space,
    Word,
    Digit,
}

/// The words of the grammar.
#[derive(Clone, Copy, Debug, PartialEq, Eq)]
pub enum Keyword {
    Skip,
    All,
    Variant,
    Display,
    Fixed,
    Partial,
    Front,
    Back,
    Char,
}

/// Whether `c` belongs to the class.
pub open spec fn in_class(class: CharClass, c: char) -> bool {
    match class {
        CharClass::Space => c == ' ' || c == '\t' || c == '\n' || c == '\r',
        CharClass::Word => ('a' <= c && c <= 'z') || c == '_',
        CharClass::Digit => '0' <= c && c <= '9',
    }
}

/// The end of the longest run of characters of the class that starts at `i`.
pub open spec fn span_end(s: Seq<char>, class: CharClass, i: int) -> int
    decreases s.len() - i,
{
    if 0 <= i < s.len() && in_class(class, s[i]) {
        span_end(s, class, i + 1)
    } else {
        i
    }
}

/// The spelling of a word of the grammar.
pub open spec fn keyword_text(key: Keyword) -> Seq<char> {
    match key {
        Keyword::Skip => seq!['s', 'k', 'i', 'p'],
        Keyword::All => seq!['a', 'l', 'l'],
        Keyword::Variant => seq!['v', 'a', 'r', 'i', 'a', 'n', 't'],
        Keyword::Display => seq!['d', 'i', 's', 'p', 'l', 'a', 'y'],
        Keyword::Fixed => seq!['f', 'i', 'x', 'e', 'd'],
        Keyword::Partial => seq!['p', 'a', 'r', 't', 'i', 'a', 'l'],
        Keyword::Front => seq!['f', 'r', 'o', 'n', 't'],
        Keyword::Back => seq!['b', 'a', 'c', 'k'],
        Keyword::Char => seq!['c', 'h', 'a', 'r'],
    }
}

/// The number that a run of decimal digits stands for.
pub open spec fn digits_value(digits: Seq<char>) -> nat
    decreases digits.len(),
{
    if digits.len() == 0 {
        0
    } else {
        digits_value(digits.drop_last()) * 10 + (digits.last() as int - '0' as int) as nat
    }
}

/// The unsigned number that starts at `i`, and where it ends. There is none
/// where no digit stands at `i`, or where the digits exceed 32 bits.
pub open spec fn number_at(s: Seq<char>, i: int) -> Option<(u32, int)> {
    let end = span_end(s, CharClass::Digit, i);
    if end > i && digits_value(s.subrange(i, end)) <= u32::MAX {
        Some((digits_value(s.subrange(i, end)) as u32, end))
    } else {
        None
    }
}

/// The position after the mark `c`, which has to be the first thing that is
/// not white space from `i` on.
pub open spec fn mark_at(s: Seq<char>, i: int, c: char) -> Option<int> {
    let at = span_end(s, CharClass::Space, i);
    if 0 <= at < s.len() && s[at] == c {
        Some(at + 1)
    } else {
        None
    }
}

/// The position after the word `key`, which has to be the first thing that
/// is not white space from `i` on.
pub open spec fn key_at(s: Seq<char>, i: int, key: Keyword) -> Option<int> {
    let start = span_end(s, CharClass::Space, i);
    let end = span_end(s, CharClass::Word, start);
    if s.subrange(start, end) == keyword_text(key) {
        Some(end)
    } else {
        None
    }
}

/// `= <n>` from `i` on.
pub open spec fn assigned_number(s: Seq<char>, i: int) -> Option<(u32, int)> {
    match mark_at(s, i, '=') {
        Some(after) => number_at(s, span_end(s, CharClass::Space, after)),
        None => None,
    }
}

/// `key = <n>` from `i` on.
pub open spec fn keyed_number(s: Seq<char>, i: int, key: Keyword) -> Option<(u32, int)> {
    match key_at(s, i, key) {
        Some(after) => assigned_number(s, after),
        None => None,
    }
}

/// `char = <c>` and the closing bracket, from `i` on. The mask character is
/// the first character after the equals sign that is not white space.
pub open spec fn mask_and_close(s: Seq<char>, i: int) -> Option<(char, int)> {
    match key_at(s, i, Keyword::Char) {
        None => None,
        Some(after_key) => match mark_at(s, after_key, '=') {
            None => None,
            Some(after_equals) => {
                let at = span_end(s, CharClass::Space, after_equals);
                if 0 <= at < s.len() {
                    match mark_at(s, at + 1, ')') {
                        Some(end) => Some((s[at], end)),
                        None => None,
                    }
                } else {
                    None
                }
            },
        },
    }
}

/// `(front = <n>, back = <n>, char = <c>)` from `i` on.
pub open spec fn partial_args(s: Seq<char>, i: int) -> Option<(PartialMask, int)> {
    match mark_at(s, i, '(') {
        None => None,
        Some(a) => match keyed_number(s, a, Keyword::Front) {
            None => None,
            Some((front, b)) => match mark_at(s, b, ',') {
                None => None,
                Some(c) => match keyed_number(s, c, Keyword::Back) {
                    None => None,
                    Some((back, e)) => match mark_at(s, e, ',') {
                        None => None,
                        Some(f) => match mask_and_close(s, f) {
                            None => None,
                            Some((mask, end)) => Some((PartialMask { front, back, mask }, end)),
                        },
                    },
                },
            },
        },
    }
}

/// The option that starts at `i`, set in `d`, and where it ends.
pub open spec fn option_at(s: Seq<char>, i: int, d: Directive) -> Option<(Directive, int)> {
    let end = span_end(s, CharClass::Word, i);
    let word = s.subrange(i, end);
    if word == keyword_text(Keyword::Skip) {
        Some((Directive { skip: true, ..d }, end))
    } else if word == keyword_text(Keyword::All) {
        Some((Directive { all: true, ..d }, end))
    } else if word == keyword_text(Keyword::Variant) {
        Some((Directive { variant: true, ..d }, end))
    } else if word == keyword_text(Keyword::Display) {
        Some((Directive { display: true, ..d }, end))
    } else if word == keyword_text(Keyword::Fixed) {
        match assigned_number(s, end) {
            Some((n, after)) => Some((Directive { fixed: Some(n), ..d }, after)),
            None => None,
        }
    } else if word == keyword_text(Keyword::Partial) {
        match partial_args(s, end) {
            Some((p, after)) => Some((Directive { partial: Some(p), ..d }, after)),
            None => None,
        }
    } else {
        None
    }
}

/// The directive that the options from `i` on make of `d`. An option stands
/// at `i`; after it the text ends, or a comma and another option follow.
pub open spec fn options_from(s: Seq<char>, i: int, d: Directive) -> Option<Directive>
    decreases s.len() - i,
{
    match option_at(s, i, d) {
        None => None,
        Some((set, after)) => {
            let at = span_end(s, CharClass::Space, after);
            if at >= s.len() {
                Some(set)
            } else if s[at] == ',' {
                let next = span_end(s, CharClass::Space, at + 1);
                if i < next <= s.len() {
                    options_from(s, next, set)
                } else {
                    None
                }
            } else {
                None
            }
        },
    }
}

/// The directive that a text stands for, if it is well formed. A text of
/// white space alone sets no option.
pub open spec fn parsed(s: Seq<char>) -> Option<Directive> {
    let start = span_end(s, CharClass::Space, 0);
    if start >= s.len() {
        Some(Directive::empty())
    } else {
        options_from(s, start, Directive::empty())
    }
}

/// A run ends at or after its start and within the text, and holds
/// characters of its class only.
pub proof fn lemma_span(s: Seq<char>, class: CharClass, i: int)
    requires
        0 <= i <= s.len(),
    ensures
        i <= span_end(s, class, i) <= s.len(),
        forall|k: int| i <= k < span_end(s, class, i) ==> in_class(class, #[trigger] s[k]),
    decreases s.len() - i,
{
    if i < s.len() && in_class(class, s[i]) {
        lemma_span(s, class, i + 1);
    }
}

/// The value of a run of digits is at least the value of each of its
/// prefixes.
pub proof fn lemma_digits_value_grows(digits: Seq<char>, k: int)
    requires
        0 <= k <= digits.len(),
        forall|j: int| 0 <= j < digits.len() ==> in_class(CharClass::Digit, #[trigger] digits[j]),
    ensures
        digits_value(digits.take(k)) <= digits_value(digits),
    decreases digits.len(),
{
    if k == digits.len() {
        assert(digits.take(k) == digits);
    } else {
        assert(digits.drop_last().take(k) == digits.take(k));
        lemma_digits_value_grows(digits.drop_last(), k);
    }
}

/// Every word of the grammar has at least three letters.
pub proof fn lemma_keywords_are_words(key: Keyword)
    ensures
        keyword_text(key).len() >= 3,
{
}

/// No option starts where no word stands.
pub proof fn lemma_option_needs_word(s: Seq<char>, i: int, d: Directive)
    requires
        0 <= i <= s.len(),
        span_end(s, CharClass::Word, i) - i < 3,
    ensures
        option_at(s, i, d) is None,
{
    lemma_span(s, CharClass::Word, i);
    let word = s.subrange(i, span_end(s, CharClass::Word, i));
    assert(word.len() < 3);
    lemma_keywords_are_words(Keyword::Skip);
    lemma_keywords_are_words(Keyword::All);
    lemma_keywords_are_words(Keyword::Variant);
    lemma_keywords_are_words(Keyword::Display);
    lemma_keywords_are_words(Keyword::Fixed);
    lemma_keywords_are_words(Keyword::Partial);
}

/// Whether `c` belongs to the class.
pub fn classify(class: CharClass, c: char) -> (b: bool)
    ensures
        b == in_class(class, c),
{
    match class {
        CharClass::Space => c == ' ' || c == '\t' || c == '\n' || c == '\r',
        CharClass::Word => ('a' <= c && c <= 'z') || c == '_',
        CharClass::Digit => '0' <= c && c <= '9',
    }
}

/// Finds the end of the run of characters of the class that starts at `i`.
pub(crate) fn scan(chars: &Vec<char>, class: CharClass, i: usize) -> (end: usize)
    requires
        i <= chars.len(),
    ensures
        end == span_end(chars@, class, i as int),
        i <= end <= chars.len(),
        forall|k: int| i <= k < end ==> in_class(class, #[trigger] chars@[k]),
{
    let mut end = i;
    while end < chars.len() && classify(class, chars[end])
        invariant
            i <= end <= chars.len(),
            span_end(chars@, class, i as int) == span_end(chars@, class, end as int),
            forall|k: int| i <= k < end ==> in_class(class, #[trigger] chars@[k]),
        decreases chars.len() - end,
    {
        end += 1;
    }
    end
}

/// The characters of a word of the grammar.
fn keyword_chars(key: Keyword) -> (word: Vec<char>)
    ensures
        word@ == keyword_text(key),
{
    match key {
        Keyword::Skip => vec!['s', 'k', 'i', 'p'],
        Keyword::All => vec!['a', 'l', 'l'],
        Keyword::Variant => vec!['v', 'a', 'r', 'i', 'a', 'n', 't'],
        Keyword::Display => vec!['d', 'i', 's', 'p', 'l', 'a', 'y'],
        Keyword::Fixed => vec!['f', 'i', 'x', 'e', 'd'],
        Keyword::Partial => vec!['p', 'a', 'r', 't', 'i', 'a', 'l'],
        Keyword::Front => vec!['f', 'r', 'o', 'n', 't'],
        Keyword::Back => vec!['b', 'a', 'c', 'k'],
        Keyword::Char => vec!['c', 'h', 'a', 'r'],
    }
}

/// Whether the characters from `from` up to `to` spell the word.
fn word_is(chars: &Vec<char>, from: usize, to: usize, key: Keyword) -> (b: bool)
    requires
        from <= to <= chars.len(),
    ensures
        b == (chars@.subrange(from as int, to as int) == keyword_text(key)),
{
    let word = keyword_chars(key);
    let ghost given = chars@.subrange(from as int, to as int);
    if to - from != word.len() {
        assert(given.len() != word@.len());
        return false;
    }
    let mut k: usize = 0;
    while k < word.len()
        invariant
            k <= word.len() == to - from,
            to <= chars.len(),
            given == chars@.subrange(from as int, to as int),
            word@ == keyword_text(key),
            forall|j: int| 0 <= j < k ==> given[j] == word@[j],
        decreases word.len() - k,
    {
        if chars[from + k] != word[k] {
            assert(given[k as int] != word@[k as int]);
            return false;
        }
        k += 1;
    }
    assert(given == word@);
    true
}

/// Reads the unsigned number that starts at `i`.
fn read_number(chars: &Vec<char>, i: usize) -> (r: Option<(u32, usize)>)
    requires
        i <= chars.len(),
    ensures
        match r {
            Some((n, end)) => number_at(chars@, i as int) == Some((n, end as int)) && i < end
                <= chars.len(),
            None => number_at(chars@, i as int) is None,
        },
{
    let end = scan(chars, CharClass::Digit, i);
    if end == i {
        return None;
    }
    let ghost digits = chars@.subrange(i as int, end as int);
    let mut value: u64 = 0;
    let mut k: usize = i;
    assert(digits.take(0) == Seq::<char>::empty());
    while k < end
        invariant
            i <= k <= end <= chars.len(),
            end == span_end(chars@, CharClass::Digit, i as int),
            digits == chars@.subrange(i as int, end as int),
            forall|j: int| 0 <= j < digits.len() ==> in_class(CharClass::Digit, #[trigger] digits[j]),
            value == digits_value(digits.take(k - i)),
            value <= u32::MAX,
        decreases end - k,
    {
        let c = chars[k];
        assert(in_class(CharClass::Digit, digits[k - i]));
        let digit: u64 = (c as u32 - '0' as u32) as u64;
        proof {
            let longer = digits.take(k - i + 1);
            assert(longer.drop_last() == digits.take(k - i));
            assert(longer.last() == c);
        }
        value = value * 10 + digit;
        k += 1;
        assert(value == digits_value(digits.take(k - i)));
        if value > u32::MAX as u64 {
            proof {
                lemma_digits_value_grows(digits, k - i);
            }
            return None;
        }
    }
    assert(digits.take(end - i) == digits);
    Some((value as u32, end))
}

/// Reads the mark `c` after any white space.
fn read_mark(chars: &Vec<char>, i: usize, c: char) -> (r: Option<usize>)
    requires
        i <= chars.len(),
    ensures
        match r {
            Some(after) => mark_at(chars@, i as int, c) == Some(after as int) && i < after
                <= chars.len(),
            None => mark_at(chars@, i as int, c) is None,
        },
{
    let at = scan(chars, CharClass::Space, i);
    if at < chars.len() && chars[at] == c {
        Some(at + 1)
    } else {
        None
    }
}

/// Reads the word `key` after any white space.
fn read_key(chars: &Vec<char>, i: usize, key: Keyword) -> (r: Option<usize>)
    requires
        i <= chars.len(),
    ensures
        match r {
            Some(after) => key_at(chars@, i as int, key) == Some(after as int) && i <= after
                <= chars.len(),
            None => key_at(chars@, i as int, key) is None,
        },
{
    let start = scan(chars, CharClass::Space, i);
    let end = scan(chars, CharClass::Word, start);
    if word_is(chars, start, end, key) {
        Some(end)
    } else {
        None
    }
}

/// Reads `= <n>`.
fn read_assigned_number(chars: &Vec<char>, i: usize) -> (r: Option<(u32, usize)>)
    requires
        i <= chars.len(),
    ensures
        match r {
            Some((n, end)) => assigned_number(chars@, i as int) == Some((n, end as int)) && i < end
                <= chars.len(),
            None => assigned_number(chars@, i as int) is None,
        },
{
    match read_mark(chars, i, '=') {
        Some(after) => {
            let start = scan(chars, CharClass::Space, after);
            read_number(chars, start)
        },
        None => None,
    }
}

/// Reads `key = <n>`.
fn read_keyed_number(chars: &Vec<char>, i: usize, key: Keyword) -> (r: Option<(u32, usize)>)
    requires
        i <= chars.len(),
    ensures
        match r {
            Some((n, end)) => keyed_number(chars@, i as int, key) == Some((n, end as int)) && i
                < end <= chars.len(),
            None => keyed_number(chars@, i as int, key) is None,
        },
{
    match read_key(chars, i, key) {
        Some(after) => read_assigned_number(chars, after),
        None => None,
    }
}

/// Reads `char = <c>` and the closing bracket.
fn read_mask_and_close(chars: &Vec<char>, i: usize) -> (r: Option<(char, usize)>)
    requires
        i <= chars.len(),
    ensures
        match r {
            Some((c, end)) => mask_and_close(chars@, i as int) == Some((c, end as int)) && i < end
                <= chars.len(),
            None => mask_and_close(chars@, i as int) is None,
        },
{
    let after_key = match read_key(chars, i, Keyword::Char) {
        Some(k) => k,
        None => {
            return None;
        },
    };
    let after_equals = match read_mark(chars, after_key, '=') {
        Some(k) => k,
        None => {
            return None;
        },
    };
    let at = scan(chars, CharClass::Space, after_equals);
    if at >= chars.len() {
        return None;
    }
    match read_mark(chars, at + 1, ')') {
        Some(end) => Some((chars[at], end)),
        None => None,
    }
}

/// Reads the arguments of `partial`.
fn read_partial_args(chars: &Vec<char>, i: usize) -> (r: Option<(PartialMask, usize)>)
    requires
        i <= chars.len(),
    ensures
        match r {
            Some((p, end)) => partial_args(chars@, i as int) == Some((p, end as int)) && i < end
                <= chars.len(),
            None => partial_args(chars@, i as int) is None,
        },
{
    let a = match read_mark(chars, i, '(') {
        Some(k) => k,
        None => {
            return None;
        },
    };
    let (front, b) = match read_keyed_number(chars, a, Keyword::Front) {
        Some(found) => found,
        None => {
            return None;
        },
    };
    let c = match read_mark(chars, b, ',') {
        Some(k) => k,
        None => {
            return None;
        },
    };
    let (back, e) = match read_keyed_number(chars, c, Keyword::Back) {
        Some(found) => found,
        None => {
            return None;
        },
    };
    let f = match read_mark(chars, e, ',') {
        Some(k) => k,
        None => {
            return None;
        },
    };
    match read_mask_and_close(chars, f) {
        Some((mask, end)) => Some((PartialMask { front, back, mask }, end)),
        None => None,
    }
}

/// Reads the option that starts at `i` and sets it in `d`.
fn read_option(chars: &Vec<char>, i: usize, d: Directive) -> (r: Option<(Directive, usize)>)
    requires
        i <= chars.len(),
    ensures
        match r {
            Some((set, end)) => option_at(chars@, i as int, d) == Some((set, end as int)) && i
                < end <= chars.len(),
            None => option_at(chars@, i as int, d) is None,
        },
{
    let end = scan(chars, CharClass::Word, i);
    if end - i < 3 {
        proof {
            lemma_option_needs_word(chars@, i as int, d);
        }
        return None;
    }
    let mut set = d;
    if word_is(chars, i, end, Keyword::Skip) {
        set.skip = true;
        Some((set, end))
    } else if word_is(chars, i, end, Keyword::All) {
        set.all = true;
        Some((set, end))
    } else if word_is(chars, i, end, Keyword::Variant) {
        set.variant = true;
        Some((set, end))
    } else if word_is(chars, i, end, Keyword::Display) {
        set.display = true;
        Some((set, end))
    } else if word_is(chars, i, end, Keyword::Fixed) {
        match read_assigned_number(chars, end) {
            Some((n, after)) => {
                set.fixed = Some(n);
                Some((set, after))
            },
            None => None,
        }
    } else if word_is(chars, i, end, Keyword::Partial) {
        match read_partial_args(chars, end) {
            Some((p, after)) => {
                set.partial = Some(p);
                Some((set, after))
            },
            None => None,
        }
    } else {
        None
    }
}

/// Parses the characters of one directive instance.
pub fn parse_chars(chars: &Vec<char>) -> (r: Result<Directive, MalformedDirective>)
    ensures
        match r {
            Ok(d) => parsed(chars@) == Some(d),
            Err(_) => parsed(chars@) is None,
        },
{
    let mut d = Directive::new();
    let mut i = scan(chars, CharClass::Space, 0);
    if i >= chars.len() {
        return Ok(d);
    }
    loop
        invariant
            i < chars.len(),
            parsed(chars@) == options_from(chars@, i as int, d),
        decreases chars.len() - i,
    {
        let (set, after) = match read_option(chars, i, d) {
            Some(found) => found,
            None => {
                return Err(MalformedDirective);
            },
        };
        let at = scan(chars, CharClass::Space, after);
        if at >= chars.len() {
            return Ok(set);
        }
        if chars[at] != ',' {
            return Err(MalformedDirective);
        }
        let next = scan(chars, CharClass::Space, at + 1);
        if next >= chars.len() {
            proof {
                assert(span_end(chars@, CharClass::Word, next as int) == next);
                lemma_option_needs_word(chars@, next as int, set);
                assert(options_from(chars@, next as int, set) is None);
            }
            return Err(MalformedDirective);
        }
        d = set;
        i = next;
    }
}

/// Parses the text of one directive instance. The text is malformed unless
/// it is a list of recognized options, each with the arguments it takes.
pub fn parse_directive(text: &str) -> (r: Result<Directive, MalformedDirective>)
    ensures
        match r {
            Ok(d) => parsed(text@) == Some(d),
            Err(_) => parsed(text@) is None,
        },
{
    let chars = chars_of(text);
    parse_chars(&chars)
}

/// The first text from `from` on that is malformed.
pub open spec fn first_malformed(texts: Seq<String>, from: int) -> Option<int>
    decreases texts.len() - from,
{
    if from < 0 || from >= texts.len() {
        None
    } else if parsed(texts[from]@) is None {
        Some(from)
    } else {
        first_malformed(texts, from + 1)
    }
}

/// Parses the directive instances written on one item, in order. Where one
/// is malformed, the position of the first such text is returned.
pub fn parse_instances(texts: &Vec<String>) -> (r: Result<Vec<Directive>, usize>)
    ensures
        match r {
            Ok(ds) => first_malformed(texts@, 0) is None && ds@ == Seq::new(
                texts@.len(),
                |k: int| parsed(texts@[k]@)->0,
            ),
            Err(k) => first_malformed(texts@, 0) == Some(k as int),
        },
{
    let mut ds: Vec<Directive> = Vec::new();
    let mut k: usize = 0;
    while k < texts.len()
        invariant
            k <= texts.len(),
            first_malformed(texts@, 0) == first_malformed(texts@, k as int),
            ds@ == Seq::new(texts@.len(), |j: int| parsed(texts@[j]@)->0).take(k as int),
        decreases texts.len() - k,
    {
        match parse_directive(texts[k].as_str()) {
            Ok(d) => {
                ds.push(d);
            },
            Err(_) => {
                return Err(k);
            },
        }
        k += 1;
    }
    Ok(ds)
}

} // verus!
