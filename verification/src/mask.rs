//! The redaction renderer: from a masking mode and the rendered text of a
//! value to the text that is shown. Lengths and positions count characters.

use crate::directive::{Mask, PartialMask, MASK_CHAR};
use crate::text::{chars_of, push_char};
use vstd::prelude::*;

verus! {

/// `n` copies of `c`.
pub open spec fn repeated(c: char, n: nat) -> Seq<char> {
    Seq::new(n, |i: int| c)
}

/// Partial masking: the first `front` and the last `back` characters stay, and
/// every character between them becomes the mask character. A text too short
/// to have a middle is shown whole.
pub open spec fn partially_masked(p: PartialMask, text: Seq<char>) -> Seq<char> {
    if p.front + p.back >= text.len() {
        text
    } else {
        text.take(p.front as int) + repeated(p.mask, (text.len() - p.front - p.back) as nat)
            + text.skip(text.len() - p.back)
    }
}

/// What is shown of `text` under `mask`; `None` where the value is left out.
pub open spec fn masked(mask: Mask, text: Seq<char>) -> Option<Seq<char>> {
    match mask {
        Mask::Unmasked => Some(text),
        Mask::Skip => None,
        Mask::Fixed(n) => Some(repeated(MASK_CHAR, n as nat)),
        Mask::Partial(p) => Some(partially_masked(p, text)),
    }
}

/// Appends `n` copies of `c`.
pub fn push_repeated(out: &mut String, c: char, n: usize)
    ensures
        final(out)@ == old(out)@ + repeated(c, n as nat),
{
    let mut i: usize = 0;
    while i < n
        invariant
            i <= n,
            out@ == old(out)@ + repeated(c, i as nat),
        decreases n - i,
    {
        push_char(out, c);
        i += 1;
        assert(out@ == old(out)@ + repeated(c, i as nat));
    }
}

/// Appends the characters of `chars` from position `from` up to `to`.
pub(crate) fn push_range(out: &mut String, chars: &Vec<char>, from: usize, to: usize)
    requires
        from <= to <= chars.len(),
    ensures
        final(out)@ == old(out)@ + chars@.subrange(from as int, to as int),
{
    let mut i: usize = from;
    while i < to
        invariant
            from <= i <= to <= chars.len(),
            out@ == old(out)@ + chars@.subrange(from as int, i as int),
        decreases to - i,
    {
        push_char(out, chars[i]);
        i += 1;
        assert(out@ == old(out)@ + chars@.subrange(from as int, i as int));
    }
}

/// Applies a masking mode to the rendered text of a value. `None` means that
/// the value is not shown at all.
pub fn redact_text(mask: &Mask, text: &str) -> (out: Option<String>)
    ensures
        match out {
            Some(s) => masked(*mask, text@) == Some(s@),
            None => masked(*mask, text@) is None,
        },
{
    match mask {
        Mask::Unmasked => Some(text.to_owned()),
        Mask::Skip => None,
        Mask::Fixed(n) => {
            let mut out = String::new();
            push_repeated(&mut out, MASK_CHAR, *n as usize);
            assert(out@ == repeated(MASK_CHAR, *n as nat));
            Some(out)
        },
        Mask::Partial(p) => {
            let chars = chars_of(text);
            let len = chars.len();
            let front = p.front as usize;
            let back = p.back as usize;
            if front >= len || back >= len - front {
                return Some(text.to_owned());
            }
            let mut out = String::new();
            push_range(&mut out, &chars, 0, front);
            push_repeated(&mut out, p.mask, len - front - back);
            push_range(&mut out, &chars, len - back, len);
            assert(out@ == partially_masked(*p, text@));
            Some(out)
        },
    }
}

/// A fixed mask shows exactly `n` mask characters, whatever the value is and
/// however long it is.
pub proof fn lemma_fixed_length(n: u32, text: Seq<char>)
    ensures
        masked(Mask::Fixed(n), text) is Some,
        masked(Mask::Fixed(n), text)->0.len() == n,
        forall|i: int| 0 <= i < n ==> masked(Mask::Fixed(n), text)->0[i] == MASK_CHAR,
{
}

/// A fixed mask shows the same text for any two values.
pub proof fn lemma_fixed_hides_value(n: u32, a: Seq<char>, b: Seq<char>)
    ensures
        masked(Mask::Fixed(n), a) == masked(Mask::Fixed(n), b),
{
}

/// A skipped value is never shown.
pub proof fn lemma_skip_shows_nothing(text: Seq<char>)
    ensures
        masked(Mask::Skip, text) is None,
{
}

/// Where the value is longer than `front + back`, a partial mask keeps its
/// length, its first `front` and its last `back` characters, and shows the
/// mask character everywhere between.
pub proof fn lemma_partial_keeps_ends(p: PartialMask, text: Seq<char>)
    requires
        p.front + p.back < text.len(),
    ensures
        masked(Mask::Partial(p), text) is Some,
        masked(Mask::Partial(p), text)->0.len() == text.len(),
        forall|i: int| 0 <= i < p.front ==> masked(Mask::Partial(p), text)->0[i] == text[i],
        forall|i: int|
            text.len() - p.back <= i < text.len() ==> masked(Mask::Partial(p), text)->0[i]
                == text[i],
        forall|i: int|
            p.front <= i < text.len() - p.back ==> masked(Mask::Partial(p), text)->0[i] == p.mask,
{
}

/// Where the value is no longer than `front + back`, a partial mask shows it
/// unchanged.
pub proof fn lemma_partial_reveals_short(p: PartialMask, text: Seq<char>)
    requires
        p.front + p.back >= text.len(),
    ensures
        masked(Mask::Partial(p), text) == Some(text),
{
}

/// Without a mask the value is shown unchanged.
pub proof fn lemma_unmasked_is_identity(text: Seq<char>)
    ensures
        masked(Mask::Unmasked, text) == Some(text),
{
}

} // verus!
