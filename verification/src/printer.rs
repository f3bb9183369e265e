//! The canonical text of a directive, and the proof that the parser reads it
//! back: what is printed here parses to the directive it was printed from.

use crate::directive::{Directive, PartialMask};
use crate::layout::push_text;
use crate::number::{decimal_nat, push_decimal};
use crate::parser::{
    assigned_number, digits_value, in_class, key_at, keyed_number, keyword_text, mark_at,
    mask_and_close, number_at, option_at, options_from, parsed, partial_args, span_end, CharClass,
    Keyword,
};
use crate::text::push_char;
use vstd::prelude::*;

verus! {

/// One option of a directive, with its arguments.
#[derive(Clone, Copy, Debug, PartialEq, Eq)]
pub enum Setting {
    Skip,
    Fixed(u32),
    Partial(PartialMask),
    All,
    Variant,
    Display,
}

/// The text of a number given to a word: `key=<n>`.
pub open spec fn keyed_text(key: Keyword, n: u32) -> Seq<char> {
    keyword_text(key) + seq!['='] + decimal_nat(n as nat)
}

/// The text of one option.
pub open spec fn setting_text(o: Setting) -> Seq<char> {
    match o {
        Setting::Skip => keyword_text(Keyword::Skip),
        Setting::All => keyword_text(Keyword::All),
        Setting::Variant => keyword_text(Keyword::Variant),
        Setting::Display => keyword_text(Keyword::Display),
        Setting::Fixed(n) => keyed_text(Keyword::Fixed, n),
        Setting::Partial(p) => keyword_text(Keyword::Partial) + seq!['('] + keyed_text(
            Keyword::Front,
            p.front,
        ) + seq![',', ' '] + keyed_text(Keyword::Back, p.back) + seq![',', ' '] + keyword_text(
            Keyword::Char,
        ) + seq!['='] + seq![p.mask] + seq![')'],
    }
}

/// The directive `d` with one more option set.
pub open spec fn with_setting(d: Directive, o: Setting) -> Directive {
    match o {
        Setting::Skip => Directive { skip: true, ..d },
        Setting::All => Directive { all: true, ..d },
        Setting::Variant => Directive { variant: true, ..d },
        Setting::Display => Directive { display: true, ..d },
        Setting::Fixed(n) => Directive { fixed: Some(n), ..d },
        Setting::Partial(p) => Directive { partial: Some(p), ..d },
    }
}

/// The directive `d` with the options set, one after the other.
pub open spec fn with_settings(d: Directive, settings: Seq<Setting>) -> Directive
    decreases settings.len(),
{
    if settings.len() == 0 {
        d
    } else {
        with_settings(with_setting(d, settings.first()), settings.drop_first())
    }
}

/// The options that a directive sets, in the order in which they are printed.
pub open spec fn settings_of(d: Directive) -> Seq<Setting> {
    (if d.skip {
        seq![Setting::Skip]
    } else {
        Seq::empty()
    }) + (match d.fixed {
        Some(n) => seq![Setting::Fixed(n)],
        None => Seq::empty(),
    }) + (match d.partial {
        Some(p) => seq![Setting::Partial(p)],
        None => Seq::empty(),
    }) + (if d.all {
        seq![Setting::All]
    } else {
        Seq::empty()
    }) + (if d.variant {
        seq![Setting::Variant]
    } else {
        Seq::empty()
    }) + (if d.display {
        seq![Setting::Display]
    } else {
        Seq::empty()
    })
}

/// The texts of the options, separated by a comma and a space.
pub open spec fn joined(settings: Seq<Setting>) -> Seq<char>
    decreases settings.len(),
{
    if settings.len() == 0 {
        Seq::empty()
    } else if settings.len() == 1 {
        setting_text(settings.last())
    } else {
        joined(settings.drop_last()) + seq![',', ' '] + setting_text(settings.last())
    }
}

/// The canonical text of a directive.
pub open spec fn printed(d: Directive) -> Seq<char> {
    joined(settings_of(d))
}

/// The options that a directive sets.
pub fn list_settings(d: &Directive) -> (settings: Vec<Setting>)
    ensures
        settings@ == settings_of(*d),
{
    let mut settings: Vec<Setting> = Vec::new();
    if d.skip {
        settings.push(Setting::Skip);
    }
    if let Some(n) = d.fixed {
        settings.push(Setting::Fixed(n));
    }
    if let Some(p) = d.partial {
        settings.push(Setting::Partial(p));
    }
    if d.all {
        settings.push(Setting::All);
    }
    if d.variant {
        settings.push(Setting::Variant);
    }
    if d.display {
        settings.push(Setting::Display);
    }
    settings
}

/// Appends `key=<n>`.
fn push_keyed_number(out: &mut String, key: &str, n: u32)
    ensures
        final(out)@ == old(out)@ + (key@ + seq!['='] + decimal_nat(n as nat)),
{
    push_text(out, key);
    push_char(out, '=');
    push_decimal(out, n as u64);
    assert(out@ == old(out)@ + (key@ + seq!['='] + decimal_nat(n as nat)));
}

/// Appends the text of one option.
pub fn push_setting(out: &mut String, o: Setting)
    ensures
        final(out)@ == old(out)@ + setting_text(o),
{
    proof {
        reveal_strlit("skip");
        reveal_strlit("all");
        reveal_strlit("variant");
        reveal_strlit("display");
        reveal_strlit("fixed");
        reveal_strlit("partial");
        reveal_strlit("front");
        reveal_strlit("back");
        reveal_strlit("char");
        assert("skip"@ == keyword_text(Keyword::Skip));
        assert("all"@ == keyword_text(Keyword::All));
        assert("variant"@ == keyword_text(Keyword::Variant));
        assert("display"@ == keyword_text(Keyword::Display));
        assert("fixed"@ == keyword_text(Keyword::Fixed));
        assert("partial"@ == keyword_text(Keyword::Partial));
        assert("front"@ == keyword_text(Keyword::Front));
        assert("back"@ == keyword_text(Keyword::Back));
        assert("char"@ == keyword_text(Keyword::Char));
    }
    match o {
        Setting::Skip => push_text(out, "skip"),
        Setting::All => push_text(out, "all"),
        Setting::Variant => push_text(out, "variant"),
        Setting::Display => push_text(out, "display"),
        Setting::Fixed(n) => {
            push_keyed_number(out, "fixed", n);
            assert(out@ == old(out)@ + setting_text(o));
        },
        Setting::Partial(p) => {
            push_text(out, "partial");
            push_char(out, '(');
            push_keyed_number(out, "front", p.front);
            push_char(out, ',');
            push_char(out, ' ');
            push_keyed_number(out, "back", p.back);
            push_char(out, ',');
            push_char(out, ' ');
            push_text(out, "char");
            push_char(out, '=');
            push_char(out, p.mask);
            push_char(out, ')');
            assert(out@ == old(out)@ + setting_text(o));
        },
    }
}

/// Prints a directive in its canonical form: the options that it sets, in
/// the order skip, fixed, partial, all, variant, display.
pub fn directive_text(d: &Directive) -> (out: String)
    ensures
        out@ == printed(*d),
{
    let settings = list_settings(d);
    let mut out = String::new();
    let mut k: usize = 0;
    while k < settings.len()
        invariant
            k <= settings.len(),
            out@ == joined(settings@.take(k as int)),
        decreases settings.len() - k,
    {
        proof {
            let next = settings@.take(k + 1);
            assert(next.drop_last() == settings@.take(k as int));
            assert(next.last() == settings@[k as int]);
        }
        if k > 0 {
            push_char(&mut out, ',');
            push_char(&mut out, ' ');
        }
        push_setting(&mut out, settings[k]);
        k += 1;
    }
    assert(settings@.take(settings.len() as int) == settings@);
    out
}

/// The text `t` stands in `s` at position `i`.
pub open spec fn stands_at(s: Seq<char>, i: int, t: Seq<char>) -> bool {
    0 <= i && i + t.len() <= s.len() && s.subrange(i, i + t.len()) == t
}

/// The place after `i` where a run of the class has to end: the text ends
/// there, or a character outside the class stands there.
pub open spec fn stops(s: Seq<char>, class: CharClass, e: int) -> bool {
    e == s.len() || (0 <= e < s.len() && !in_class(class, s[e]))
}

/// Where a text of two parts stands, the first part stands, and the second
/// stands right after it.
pub proof fn lemma_stands_split(s: Seq<char>, i: int, a: Seq<char>, b: Seq<char>)
    requires
        stands_at(s, i, a + b),
    ensures
        stands_at(s, i, a),
        stands_at(s, i + a.len(), b),
{
    let whole = s.subrange(i, i + (a + b).len());
    assert(whole == a + b);
    assert forall|k: int| 0 <= k < a.len() implies s.subrange(i, i + a.len())[k] == a[k] by {
        assert(whole[k] == (a + b)[k]);
    }
    assert(s.subrange(i, i + a.len()) =~= a);
    assert forall|k: int| 0 <= k < b.len() implies s.subrange(
        i + a.len(),
        i + a.len() + b.len(),
    )[k] == b[k] by {
        assert(whole[a.len() + k] == (a + b)[a.len() + k]);
    }
    assert(s.subrange(i + a.len(), i + a.len() + b.len()) =~= b);
}

/// A run of the class that is known character by character ends where the
/// class stops.
pub proof fn lemma_span_exact(s: Seq<char>, class: CharClass, i: int, e: int)
    requires
        0 <= i <= e <= s.len(),
        forall|k: int| i <= k < e ==> in_class(class, #[trigger] s[k]),
        stops(s, class, e),
    ensures
        span_end(s, class, i) == e,
    decreases e - i,
{
    if i < e {
        lemma_span_exact(s, class, i + 1, e);
    }
}

/// The words of the grammar are made of word characters.
pub proof fn lemma_keyword_is_word(key: Keyword)
    ensures
        keyword_text(key).len() >= 3,
        forall|k: int|
            0 <= k < keyword_text(key).len() ==> in_class(
                CharClass::Word,
                #[trigger] keyword_text(key)[k],
            ),
{
}

/// A word of the grammar that stands at `i` and is followed by something
/// else is the whole run of word characters there.
pub proof fn lemma_word_read(s: Seq<char>, i: int, key: Keyword)
    requires
        stands_at(s, i, keyword_text(key)),
        stops(s, CharClass::Word, i + keyword_text(key).len()),
    ensures
        span_end(s, CharClass::Word, i) == i + keyword_text(key).len(),
{
    let word = keyword_text(key);
    lemma_keyword_is_word(key);
    assert forall|k: int| i <= k < i + word.len() implies in_class(
        CharClass::Word,
        #[trigger] s[k],
    ) by {
        assert(s.subrange(i, i + word.len())[k - i] == word[k - i]);
    }
    lemma_span_exact(s, CharClass::Word, i, i + word.len());
}

/// The decimal digits of a number are digits, at least one, and stand for
/// the number.
pub proof fn lemma_decimal_digits(n: nat)
    ensures
        decimal_nat(n).len() >= 1,
        forall|k: int|
            0 <= k < decimal_nat(n).len() ==> in_class(
                CharClass::Digit,
                #[trigger] decimal_nat(n)[k],
            ),
        digits_value(decimal_nat(n)) == n,
    decreases n,
{
    if n < 10 {
        let one = decimal_nat(n);
        assert(one.drop_last() =~= Seq::<char>::empty());
        assert(digits_value(one.drop_last()) == 0);
        assert(digits_value(one) == n);
    } else {
        lemma_decimal_digits(n / 10);
        let all = decimal_nat(n);
        assert(all.drop_last() =~= decimal_nat(n / 10));
        assert(digits_value(all) == digits_value(decimal_nat(n / 10)) * 10 + (n % 10));
    }
}

/// The decimal digits of a number that stand at `i` and are followed by
/// something else are read as that number.
pub proof fn lemma_number_read(s: Seq<char>, i: int, n: u32)
    requires
        stands_at(s, i, decimal_nat(n as nat)),
        stops(s, CharClass::Digit, i + decimal_nat(n as nat).len()),
    ensures
        number_at(s, i) == Some((n, i + decimal_nat(n as nat).len())),
{
    let digits = decimal_nat(n as nat);
    lemma_decimal_digits(n as nat);
    assert forall|k: int| i <= k < i + digits.len() implies in_class(
        CharClass::Digit,
        #[trigger] s[k],
    ) by {
        assert(s.subrange(i, i + digits.len())[k - i] == digits[k - i]);
    }
    lemma_span_exact(s, CharClass::Digit, i, i + digits.len());
}

/// An option ends where the text ends or a comma stands.
pub open spec fn ends_setting(s: Seq<char>, e: int) -> bool {
    e == s.len() || (0 <= e < s.len() && s[e] == ',')
}

/// No white space is skipped where something else stands.
pub proof fn lemma_no_space(s: Seq<char>, i: int)
    requires
        stops(s, CharClass::Space, i),
    ensures
        span_end(s, CharClass::Space, i) == i,
{
}

/// A single space before something else is skipped.
pub proof fn lemma_one_space(s: Seq<char>, i: int)
    requires
        0 <= i < s.len(),
        s[i] == ' ',
        stops(s, CharClass::Space, i + 1),
    ensures
        span_end(s, CharClass::Space, i) == i + 1,
{
    lemma_span_exact(s, CharClass::Space, i, i + 1);
}

/// A word of the grammar starts with a character that is not white space.
pub proof fn lemma_word_starts(s: Seq<char>, i: int, key: Keyword)
    requires
        stands_at(s, i, keyword_text(key)),
    ensures
        stops(s, CharClass::Space, i),
        0 <= i < s.len(),
{
    lemma_keyword_is_word(key);
    assert(s.subrange(i, i + keyword_text(key).len())[0] == keyword_text(key)[0]);
}

/// A mark that stands at `at`, after the white space from `from` on, is
/// read.
pub proof fn lemma_mark_read(s: Seq<char>, from: int, at: int, c: char)
    requires
        span_end(s, CharClass::Space, from) == at,
        0 <= at < s.len(),
        s[at] == c,
    ensures
        mark_at(s, from, c) == Some(at + 1),
{
}

/// The word `key` that stands at `at`, after the white space from `from` on,
/// and is followed by something else, is read.
pub proof fn lemma_key_read(s: Seq<char>, from: int, at: int, key: Keyword)
    requires
        span_end(s, CharClass::Space, from) == at,
        stands_at(s, at, keyword_text(key)),
        stops(s, CharClass::Word, at + keyword_text(key).len()),
    ensures
        key_at(s, from, key) == Some(at + keyword_text(key).len()),
{
    lemma_word_read(s, at, key);
}

/// `=<n>` that stands at `at` and is followed by something that is no digit
/// is read as `n`.
pub proof fn lemma_assigned_read(s: Seq<char>, at: int, n: u32)
    requires
        stands_at(s, at, seq!['='] + decimal_nat(n as nat)),
        stops(s, CharClass::Digit, at + 1 + decimal_nat(n as nat).len()),
    ensures
        assigned_number(s, at) == Some((n, at + 1 + decimal_nat(n as nat).len())),
{
    let digits = decimal_nat(n as nat);
    lemma_stands_split(s, at, seq!['='], digits);
    lemma_decimal_digits(n as nat);
    assert(s.subrange(at, at + 1)[0] == '=');
    assert(s.subrange(at + 1, at + 1 + digits.len())[0] == digits[0]);
    lemma_no_space(s, at);
    lemma_mark_read(s, at, at, '=');
    lemma_no_space(s, at + 1);
    lemma_number_read(s, at + 1, n);
}

/// `key=<n>` that stands at `at`, after the white space from `from` on, and
/// is followed by something that is no digit, is read as `n`.
pub proof fn lemma_keyed_read(s: Seq<char>, from: int, at: int, key: Keyword, n: u32)
    requires
        span_end(s, CharClass::Space, from) == at,
        stands_at(s, at, keyed_text(key, n)),
        stops(s, CharClass::Digit, at + keyed_text(key, n).len()),
    ensures
        keyed_number(s, from, key) == Some((n, at + keyed_text(key, n).len())),
{
    let word = keyword_text(key);
    let digits = decimal_nat(n as nat);
    assert(keyed_text(key, n) == word + (seq!['='] + digits));
    lemma_stands_split(s, at, word, seq!['='] + digits);
    lemma_stands_split(s, at + word.len(), seq!['='], digits);
    assert(s.subrange(at + word.len(), at + word.len() + 1)[0] == '=');
    lemma_key_read(s, from, at, key);
    lemma_assigned_read(s, at + word.len(), n);
}

/// `key=<n>` starts with a character that is not white space.
pub proof fn lemma_keyed_starts(s: Seq<char>, at: int, key: Keyword, n: u32)
    requires
        stands_at(s, at, keyed_text(key, n)),
    ensures
        stops(s, CharClass::Space, at),
        0 <= at < s.len(),
{
    assert(keyed_text(key, n) == keyword_text(key) + (seq!['='] + decimal_nat(n as nat)));
    lemma_stands_split(s, at, keyword_text(key), seq!['='] + decimal_nat(n as nat));
    lemma_word_starts(s, at, key);
}

/// The words that open an option are told apart by their length or their
/// first letter.
pub proof fn lemma_keywords_differ()
    ensures
        keyword_text(Keyword::All) != keyword_text(Keyword::Skip),
        keyword_text(Keyword::Variant) != keyword_text(Keyword::Skip),
        keyword_text(Keyword::Variant) != keyword_text(Keyword::All),
        keyword_text(Keyword::Display) != keyword_text(Keyword::Skip),
        keyword_text(Keyword::Display) != keyword_text(Keyword::All),
        keyword_text(Keyword::Display) != keyword_text(Keyword::Variant),
        keyword_text(Keyword::Fixed) != keyword_text(Keyword::Skip),
        keyword_text(Keyword::Fixed) != keyword_text(Keyword::All),
        keyword_text(Keyword::Fixed) != keyword_text(Keyword::Variant),
        keyword_text(Keyword::Fixed) != keyword_text(Keyword::Display),
        keyword_text(Keyword::Partial) != keyword_text(Keyword::Skip),
        keyword_text(Keyword::Partial) != keyword_text(Keyword::All),
        keyword_text(Keyword::Partial) != keyword_text(Keyword::Variant),
        keyword_text(Keyword::Partial) != keyword_text(Keyword::Display),
        keyword_text(Keyword::Partial) != keyword_text(Keyword::Fixed),
{
    assert(keyword_text(Keyword::Skip).len() == 4);
    assert(keyword_text(Keyword::All).len() == 3);
    assert(keyword_text(Keyword::Fixed).len() == 5);
    assert(keyword_text(Keyword::Variant)[0] == 'v');
    assert(keyword_text(Keyword::Display)[0] == 'd');
    assert(keyword_text(Keyword::Partial)[0] == 'p');
    assert(keyword_text(Keyword::Variant).len() == 7);
    assert(keyword_text(Keyword::Display).len() == 7);
    assert(keyword_text(Keyword::Partial).len() == 7);
}

/// The arguments of `partial`, as they are printed, are read back.
pub proof fn lemma_partial_args_read(s: Seq<char>, at: int, p: PartialMask)
    requires
        stands_at(
            s,
            at,
            seq!['('] + keyed_text(Keyword::Front, p.front) + seq![',', ' '] + keyed_text(
                Keyword::Back,
                p.back,
            ) + seq![',', ' '] + keyword_text(Keyword::Char) + seq!['='] + seq![p.mask] + seq![')'],
        ),
        !in_class(CharClass::Space, p.mask),
    ensures
        partial_args(s, at) == Some(
            (
                p,
                at + (seq!['('] + keyed_text(Keyword::Front, p.front) + seq![',', ' ']
                    + keyed_text(Keyword::Back, p.back) + seq![',', ' '] + keyword_text(
                    Keyword::Char,
                ) + seq!['='] + seq![p.mask] + seq![')']).len(),
            ),
        ),
{
    let open = seq!['('];
    let front = keyed_text(Keyword::Front, p.front);
    let comma = seq![',', ' '];
    let back = keyed_text(Keyword::Back, p.back);
    let word = keyword_text(Keyword::Char);
    let equals = seq!['='];
    let mask = seq![p.mask];
    let close = seq![')'];
    let x1 = open + front;
    let x2 = x1 + comma;
    let x3 = x2 + back;
    let x4 = x3 + comma;
    let x5 = x4 + word;
    let x6 = x5 + equals;
    let x7 = x6 + mask;
    lemma_stands_split(s, at, x7, close);
    lemma_stands_split(s, at, x6, mask);
    lemma_stands_split(s, at, x5, equals);
    lemma_stands_split(s, at, x4, word);
    lemma_stands_split(s, at, x3, comma);
    lemma_stands_split(s, at, x2, back);
    lemma_stands_split(s, at, x1, comma);
    lemma_stands_split(s, at, open, front);
    let p_front = at + 1;
    let p_comma1 = at + x1.len();
    let p_back = at + x2.len();
    let p_comma2 = at + x3.len();
    let p_word = at + x4.len();
    let p_equals = at + x5.len();
    let p_mask = at + x6.len();
    let p_close = at + x7.len();
    assert(s[at] == '(') by {
        assert(s.subrange(at, at + 1)[0] == open[0]);
    }
    assert(s[p_comma1] == ',' && s[p_comma1 + 1] == ' ') by {
        assert(s.subrange(p_comma1, p_comma1 + 2)[0] == comma[0]);
        assert(s.subrange(p_comma1, p_comma1 + 2)[1] == comma[1]);
    }
    assert(s[p_comma2] == ',' && s[p_comma2 + 1] == ' ') by {
        assert(s.subrange(p_comma2, p_comma2 + 2)[0] == comma[0]);
        assert(s.subrange(p_comma2, p_comma2 + 2)[1] == comma[1]);
    }
    assert(s[p_equals] == '=') by {
        assert(s.subrange(p_equals, p_equals + 1)[0] == equals[0]);
    }
    assert(s[p_mask] == p.mask) by {
        assert(s.subrange(p_mask, p_mask + 1)[0] == mask[0]);
    }
    assert(s[p_close] == ')') by {
        assert(s.subrange(p_close, p_close + 1)[0] == close[0]);
    }
    lemma_no_space(s, at);
    lemma_mark_read(s, at, at, '(');
    assert(mark_at(s, at, '(') == Some(p_front));

    lemma_keyed_starts(s, p_front, Keyword::Front, p.front);
    lemma_no_space(s, p_front);
    lemma_keyed_read(s, p_front, p_front, Keyword::Front, p.front);
    assert(keyed_number(s, p_front, Keyword::Front) == Some((p.front, p_comma1)));

    lemma_no_space(s, p_comma1);
    lemma_mark_read(s, p_comma1, p_comma1, ',');
    assert(mark_at(s, p_comma1, ',') == Some(p_comma1 + 1));

    lemma_keyed_starts(s, p_back, Keyword::Back, p.back);
    lemma_one_space(s, p_comma1 + 1);
    lemma_keyed_read(s, p_comma1 + 1, p_back, Keyword::Back, p.back);
    assert(keyed_number(s, p_comma1 + 1, Keyword::Back) == Some((p.back, p_comma2)));

    lemma_no_space(s, p_comma2);
    lemma_mark_read(s, p_comma2, p_comma2, ',');
    assert(mark_at(s, p_comma2, ',') == Some(p_comma2 + 1));

    lemma_word_starts(s, p_word, Keyword::Char);
    lemma_one_space(s, p_comma2 + 1);
    lemma_key_read(s, p_comma2 + 1, p_word, Keyword::Char);
    assert(key_at(s, p_comma2 + 1, Keyword::Char) == Some(p_equals));
    lemma_no_space(s, p_equals);
    lemma_mark_read(s, p_equals, p_equals, '=');
    assert(mark_at(s, p_equals, '=') == Some(p_mask));
    lemma_no_space(s, p_mask);
    lemma_no_space(s, p_close);
    lemma_mark_read(s, p_close, p_close, ')');
    assert(mark_at(s, p_mask + 1, ')') == Some(p_close + 1));
    assert(mask_and_close(s, p_comma2 + 1) == Some((p.mask, p_close + 1)));
}

/// An option that stands at `i` as it is printed, and after which the text
/// ends or a comma stands, is read back. The mask character of `partial`
/// must not be white space.
pub proof fn lemma_setting_read(s: Seq<char>, i: int, o: Setting, d: Directive)
    requires
        stands_at(s, i, setting_text(o)),
        ends_setting(s, i + setting_text(o).len()),
        o is Partial ==> !in_class(CharClass::Space, o->Partial_0.mask),
    ensures
        option_at(s, i, d) == Some((with_setting(d, o), i + setting_text(o).len())),
{
    lemma_keywords_differ();
    match o {
        Setting::Skip => {
            lemma_word_read(s, i, Keyword::Skip);
        },
        Setting::All => {
            lemma_word_read(s, i, Keyword::All);
        },
        Setting::Variant => {
            lemma_word_read(s, i, Keyword::Variant);
        },
        Setting::Display => {
            lemma_word_read(s, i, Keyword::Display);
        },
        Setting::Fixed(n) => {
            let word = keyword_text(Keyword::Fixed);
            let rest = seq!['='] + decimal_nat(n as nat);
            assert(setting_text(o) == word + rest);
            lemma_stands_split(s, i, word, rest);
            lemma_stands_split(s, i + word.len(), seq!['='], decimal_nat(n as nat));
            assert(s.subrange(i + word.len(), i + word.len() + 1)[0] == '=');
            lemma_word_read(s, i, Keyword::Fixed);
            lemma_assigned_read(s, i + word.len(), n);
        },
        Setting::Partial(p) => {
            let word = keyword_text(Keyword::Partial);
            let rest = seq!['('] + keyed_text(Keyword::Front, p.front) + seq![',', ' ']
                + keyed_text(Keyword::Back, p.back) + seq![',', ' '] + keyword_text(
                Keyword::Char,
            ) + seq!['='] + seq![p.mask] + seq![')'];
            assert(setting_text(o) == word + rest);
            lemma_stands_split(s, i, word, rest);
            assert(s[i + word.len()] == '(') by {
                assert(s.subrange(i + word.len(), i + word.len() + rest.len())[0] == rest[0]);
            }
            lemma_word_read(s, i, Keyword::Partial);
            lemma_partial_args_read(s, i + word.len(), p);
        },
    }
}

/// Every option, as it is printed, starts with a character that is not
/// white space.
pub proof fn lemma_setting_starts(s: Seq<char>, at: int, o: Setting)
    requires
        stands_at(s, at, setting_text(o)),
    ensures
        stops(s, CharClass::Space, at),
        0 <= at < s.len(),
{
    match o {
        Setting::Skip => lemma_word_starts(s, at, Keyword::Skip),
        Setting::All => lemma_word_starts(s, at, Keyword::All),
        Setting::Variant => lemma_word_starts(s, at, Keyword::Variant),
        Setting::Display => lemma_word_starts(s, at, Keyword::Display),
        Setting::Fixed(n) => lemma_keyed_starts(s, at, Keyword::Fixed, n),
        Setting::Partial(p) => {
            let word = keyword_text(Keyword::Partial);
            let rest = seq!['('] + keyed_text(Keyword::Front, p.front) + seq![',', ' ']
                + keyed_text(Keyword::Back, p.back) + seq![',', ' '] + keyword_text(
                Keyword::Char,
            ) + seq!['='] + seq![p.mask] + seq![')'];
            assert(setting_text(o) == word + rest);
            lemma_stands_split(s, at, word, rest);
            lemma_word_starts(s, at, Keyword::Partial);
        },
    }
}

/// The joined text of two or more options is the text of the first, the
/// separator, and the joined text of the others.
pub proof fn lemma_joined_front(settings: Seq<Setting>)
    requires
        settings.len() >= 2,
    ensures
        joined(settings) == setting_text(settings.first()) + seq![',', ' '] + joined(
            settings.drop_first(),
        ),
    decreases settings.len(),
{
    let init = settings.drop_last();
    let tail = settings.drop_first();
    if settings.len() == 2 {
        assert(init.len() == 1 && tail.len() == 1);
        assert(init.last() == settings.first());
        assert(tail.last() == settings.last());
        assert(joined(init) == setting_text(settings.first()));
        assert(joined(tail) == setting_text(settings.last()));
        assert(joined(settings) == joined(init) + seq![',', ' '] + setting_text(settings.last()));
    } else {
        lemma_joined_front(init);
        assert(init.first() == settings.first());
        assert(init.drop_first() == tail.drop_last());
        assert(tail.last() == settings.last());
        assert(joined(settings) == (setting_text(settings.first()) + seq![',', ' '] + joined(
            init.drop_first(),
        )) + seq![',', ' '] + setting_text(settings.last()));
        assert(joined(tail) == joined(tail.drop_last()) + seq![',', ' '] + setting_text(
            tail.last(),
        ));
        assert(joined(settings) =~= setting_text(settings.first()) + seq![',', ' '] + joined(
            tail,
        ));
    }
}

/// The joined text of options starts with a character that is not white
/// space.
pub proof fn lemma_joined_starts(s: Seq<char>, at: int, settings: Seq<Setting>)
    requires
        settings.len() >= 1,
        stands_at(s, at, joined(settings)),
    ensures
        stops(s, CharClass::Space, at),
        0 <= at < s.len(),
{
    if settings.len() == 1 {
        lemma_setting_starts(s, at, settings.last());
    } else {
        lemma_joined_front(settings);
        let first = setting_text(settings.first());
        let rest = seq![',', ' '] + joined(settings.drop_first());
        assert(joined(settings) =~= first + rest);
        lemma_stands_split(s, at, first, rest);
        lemma_setting_starts(s, at, settings.first());
    }
}

/// The joined text of options that stands at `i` and runs to the end of the
/// text is read back as those options, set one after the other.
pub proof fn lemma_settings_read(s: Seq<char>, i: int, settings: Seq<Setting>, d: Directive)
    requires
        settings.len() >= 1,
        stands_at(s, i, joined(settings)),
        i + joined(settings).len() == s.len(),
        forall|k: int|
            0 <= k < settings.len() && (#[trigger] settings[k]) is Partial ==> !in_class(
                CharClass::Space,
                settings[k]->Partial_0.mask,
            ),
    ensures
        options_from(s, i, d) == Some(with_settings(d, settings)),
    decreases settings.len(),
{
    let o = settings.first();
    let set = with_setting(d, o);
    let tail = settings.drop_first();
    let text = setting_text(o);
    let e = i + text.len();
    assert(with_settings(d, settings) == with_settings(set, tail));
    if settings.len() == 1 {
        assert(settings.last() == o);
        lemma_setting_read(s, i, o, d);
        assert(span_end(s, CharClass::Space, e) == e);
        assert(with_settings(set, tail) == set);
    } else {
        lemma_joined_front(settings);
        let comma = seq![',', ' '];
        let rest = joined(tail);
        assert(joined(settings) =~= (text + comma) + rest);
        lemma_stands_split(s, i, text + comma, rest);
        lemma_stands_split(s, i, text, comma);
        assert(s[e] == ',' && s[e + 1] == ' ') by {
            assert(s.subrange(e, e + 2)[0] == comma[0]);
            assert(s.subrange(e, e + 2)[1] == comma[1]);
        }
        lemma_setting_read(s, i, o, d);
        lemma_no_space(s, e);
        lemma_joined_starts(s, e + 2, tail);
        lemma_one_space(s, e + 1);
        assert forall|k: int| 0 <= k < tail.len() && (#[trigger] tail[k]) is Partial implies !in_class(
            CharClass::Space,
            tail[k]->Partial_0.mask,
        ) by {
            assert(tail[k] == settings[k + 1]);
        }
        lemma_settings_read(s, e + 2, tail, set);
        assert(options_from(s, i, d) == options_from(s, e + 2, set));
    }
}

/// Setting the options of two lists, one list after the other, is setting
/// the options of the lists put together.
pub proof fn lemma_with_settings_concat(d: Directive, a: Seq<Setting>, b: Seq<Setting>)
    ensures
        with_settings(d, a + b) == with_settings(with_settings(d, a), b),
    decreases a.len(),
{
    if a.len() == 0 {
        assert(a + b == b);
    } else {
        assert((a + b).first() == a.first());
        assert((a + b).drop_first() == a.drop_first() + b);
        lemma_with_settings_concat(with_setting(d, a.first()), a.drop_first(), b);
    }
}

/// Setting at most one option.
pub proof fn lemma_with_one(d: Directive, o: Setting)
    ensures
        with_settings(d, seq![o]) == with_setting(d, o),
        with_settings(d, Seq::empty()) == d,
{
    assert(seq![o].drop_first() == Seq::<Setting>::empty());
    assert(with_settings(with_setting(d, o), Seq::empty()) == with_setting(d, o));
}

/// The options that a directive sets, set in the directive without options,
/// give the directive.
pub proof fn lemma_settings_rebuild(d: Directive)
    ensures
        with_settings(Directive::empty(), settings_of(d)) == d,
{
    let empty = Seq::<Setting>::empty();
    let a = if d.skip {
        seq![Setting::Skip]
    } else {
        empty
    };
    let b = match d.fixed {
        Some(n) => seq![Setting::Fixed(n)],
        None => empty,
    };
    let c = match d.partial {
        Some(p) => seq![Setting::Partial(p)],
        None => empty,
    };
    let e = if d.all {
        seq![Setting::All]
    } else {
        empty
    };
    let f = if d.variant {
        seq![Setting::Variant]
    } else {
        empty
    };
    let g = if d.display {
        seq![Setting::Display]
    } else {
        empty
    };
    let d0 = Directive::empty();
    let d1 = with_settings(d0, a);
    let d2 = with_settings(d1, b);
    let d3 = with_settings(d2, c);
    let d4 = with_settings(d3, e);
    let d5 = with_settings(d4, f);
    let d6 = with_settings(d5, g);
    lemma_with_one(d0, Setting::Skip);
    lemma_with_one(d3, Setting::All);
    lemma_with_one(d4, Setting::Variant);
    lemma_with_one(d5, Setting::Display);
    if d.fixed is Some {
        lemma_with_one(d1, Setting::Fixed(d.fixed->0));
    } else {
        lemma_with_one(d1, Setting::Skip);
    }
    if d.partial is Some {
        lemma_with_one(d2, Setting::Partial(d.partial->0));
    } else {
        lemma_with_one(d2, Setting::Skip);
    }
    assert(d6 == d);
    lemma_with_settings_concat(d0, a, b);
    lemma_with_settings_concat(d0, a + b, c);
    lemma_with_settings_concat(d0, a + b + c, e);
    lemma_with_settings_concat(d0, a + b + c + e, f);
    lemma_with_settings_concat(d0, a + b + c + e + f, g);
    assert(settings_of(d) == a + b + c + e + f + g);
}

/// What is printed is read back: the canonical text of a directive parses
/// to that directive. The mask character of `partial` must not be white
/// space, which the grammar skips.
pub proof fn lemma_printed_parses(d: Directive)
    requires
        d.partial is Some ==> !in_class(CharClass::Space, d.partial->0.mask),
    ensures
        parsed(printed(d)) == Some(d),
{
    let settings = settings_of(d);
    let s = printed(d);
    lemma_settings_rebuild(d);
    if settings.len() == 0 {
        assert(with_settings(Directive::empty(), settings) == Directive::empty());
        assert(s.len() == 0);
    } else {
        assert(s.subrange(0, s.len() as int) == s);
        lemma_joined_starts(s, 0, settings);
        lemma_no_space(s, 0);
        assert forall|k: int| 0 <= k < settings.len() && (#[trigger] settings[k]) is Partial implies !in_class(
            CharClass::Space,
            settings[k]->Partial_0.mask,
        ) by {
            assert(d.partial is Some && settings[k] == Setting::Partial(d.partial->0));
        }
        lemma_settings_read(s, 0, settings, Directive::empty());
    }
}

} // verus!
