//! The integer side of the noise engine: validated noise parameters, adding
//! a sampled offset to a value within its domain, and the optional pass that
//! shifts the characters of a rendered buffer. Sampling from a Laplace
//! distribution needs real arithmetic and is the caller's part; everything
//! here takes the sampled offsets as integers.

use crate::text::{chars_of, push_char};
use rand::Rng;
use vstd::prelude::*;

verus! {

/// The largest shift that the uniform buffer pass applies to a character.
pub const MAX_UNIFORM_SHIFT: u8 = 5;

/// The two parameters of a noise specification.
#[derive(Clone, Copy, Debug, PartialEq, Eq)]
pub enum NoiseParameter {
    Sensitivity,
    Epsilon,
}

/// What can go wrong when noise is applied.
#[derive(Clone, Copy, Debug, PartialEq, Eq)]
pub enum NoiseError {
    /// The named parameter is zero or negative.
    InvalidNoiseParameters(NoiseParameter),
    /// Fewer offsets were supplied than the buffer has characters.
    TooFewOffsets { needed: usize, given: usize },
}

/// Sensitivity and privacy-loss budget of one noise injection, both in
/// millionths. Both are strictly positive; the scale of the Laplace
/// distribution is their quotient.
#[derive(Clone, Copy, Debug, PartialEq, Eq)]
pub struct NoiseSpec {
    sensitivity: i64,
    epsilon: i64,
}

impl NoiseSpec {
    #[verifier::type_invariant]
    spec fn positive(self) -> bool {
        self.sensitivity > 0 && self.epsilon > 0
    }

    /// The sensitivity, in millionths.
    pub closed spec fn sensitivity(self) -> int {
        self.sensitivity as int
    }

    /// The privacy-loss budget, in millionths.
    pub closed spec fn epsilon(self) -> int {
        self.epsilon as int
    }

    /// Which parameter of the pair is out of range; the sensitivity is looked
    /// at first.
    pub open spec fn rejected(sensitivity: int, epsilon: int) -> Option<NoiseParameter> {
        if sensitivity <= 0 {
            Some(NoiseParameter::Sensitivity)
        } else if epsilon <= 0 {
            Some(NoiseParameter::Epsilon)
        } else {
            None
        }
    }

    /// Makes a noise specification from a sensitivity and a budget given in
    /// millionths. Fails, naming the parameter, unless both are positive.
    pub fn new(sensitivity: i64, epsilon: i64) -> (r: Result<NoiseSpec, NoiseError>)
        ensures
            match r {
                Ok(spec) => NoiseSpec::rejected(sensitivity as int, epsilon as int) is None
                    && spec.sensitivity() == sensitivity && spec.epsilon() == epsilon,
                Err(e) => NoiseSpec::rejected(sensitivity as int, epsilon as int) == Some(
                    e->InvalidNoiseParameters_0,
                ) && e is InvalidNoiseParameters,
            },
    {
        if sensitivity <= 0 {
            Err(NoiseError::InvalidNoiseParameters(NoiseParameter::Sensitivity))
        } else if epsilon <= 0 {
            Err(NoiseError::InvalidNoiseParameters(NoiseParameter::Epsilon))
        } else {
            Ok(NoiseSpec { sensitivity, epsilon })
        }
    }

    /// The sensitivity, in millionths.
    pub fn sensitivity_micros(&self) -> (r: i64)
        ensures
            r == self.sensitivity(),
            r > 0,
    {
        proof {
            use_type_invariant(self);
        }
        self.sensitivity
    }

    /// The privacy-loss budget, in millionths.
    pub fn epsilon_micros(&self) -> (r: i64)
        ensures
            r == self.epsilon(),
            r > 0,
    {
        proof {
            use_type_invariant(self);
        }
        self.epsilon
    }
}

/// A value with noise added, kept within the non-negative domain: the sum,
/// raised to zero where it is negative and capped at the largest value.
pub open spec fn noised(value: int, offset: int) -> int {
    if value + offset < 0 {
        0
    } else if value + offset > i64::MAX {
        i64::MAX as int
    } else {
        value + offset
    }
}

/// Adds a sampled, rounded noise offset to a value and clamps the result to
/// the non-negative domain. The result is never negative, however large the
/// offset is in either direction.
pub fn apply_noise(value: i64, offset: i64) -> (r: i64)
    ensures
        r == noised(value as int, offset as int),
        r >= 0,
{
    let sum: i128 = value as i128 + offset as i128;
    if sum < 0 {
        0
    } else if sum > i64::MAX as i128 {
        i64::MAX
    } else {
        sum as i64
    }
}

/// A noised value is never negative, and it is the exact sum wherever the
/// sum lies within the domain, however large the offset is.
pub proof fn lemma_noised_stays_in_domain(value: int, offset: int)
    ensures
        0 <= noised(value, offset) <= i64::MAX,
        0 <= value + offset <= i64::MAX ==> noised(value, offset) == value + offset,
        value + offset < 0 ==> noised(value, offset) == 0,
{
}

/// Whether `code` is the code point of a character: within the Unicode range
/// and not a surrogate.
pub open spec fn is_scalar_value(code: int) -> bool {
    0 <= code <= 0xD7FF || 0xE000 <= code <= 0x10FFFF
}

/// The character `offset` code points away from `c`, or `c` itself where no
/// character has that code point.
pub open spec fn shifted(c: char, offset: int) -> char {
    if is_scalar_value(c as int + offset) {
        (c as int + offset) as char
    } else {
        c
    }
}

/// A text with each character shifted by the offset at its position.
pub open spec fn shifted_text(text: Seq<char>, offsets: Seq<i32>) -> Seq<char> {
    Seq::new(text.len(), |i: int| shifted(text[i], offsets[i] as int))
}

/// `after` is `before` shifted forward by at most `max` code points.
pub open spec fn within_shift(before: char, after: char, max: int) -> bool {
    exists|n: int| 0 <= n <= max && after == #[trigger] shifted(before, n)
}

/// The character with the given code point, if there is one.
///
/// Trusted: this is `char::from_u32`, documented to return `None` exactly
/// when the argument is not a valid Unicode scalar value (above `0x10FFFF` or
/// a surrogate), and otherwise the character with that code point.
#[verifier::external_body]
fn char_from_code(code: u32) -> (r: Option<char>)
    ensures
        r == if is_scalar_value(code as int) {
            Some(code as char)
        } else {
            None::<char>
        },
{
    char::from_u32(code)
}

/// Shifts one character by a number of code points. Where the shift leaves
/// the set of valid characters, the character is returned unchanged.
pub fn perturb_char(c: char, offset: i32) -> (r: char)
    ensures
        r == shifted(c, offset as int),
{
    let code: i64 = c as u32 as i64 + offset as i64;
    if code < 0 || code > 0x10FFFF {
        return c;
    }
    match char_from_code(code as u32) {
        Some(moved) => moved,
        None => c,
    }
}

/// Shifts every character of `text` by the offset at its position. `offsets`
/// has to cover the text.
pub fn perturb_text(text: &str, offsets: &Vec<i32>) -> (r: Result<String, NoiseError>)
    ensures
        match r {
            Ok(out) => text@.len() <= offsets@.len() && out@ == shifted_text(text@, offsets@),
            Err(e) => text@.len() > offsets@.len() && e == (NoiseError::TooFewOffsets {
                needed: text@.len() as usize,
                given: offsets.len(),
            }),
        },
{
    let chars = chars_of(text);
    if chars.len() > offsets.len() {
        return Err(NoiseError::TooFewOffsets { needed: chars.len(), given: offsets.len() });
    }
    let mut out = String::new();
    let mut i: usize = 0;
    while i < chars.len()
        invariant
            i <= chars.len() <= offsets.len(),
            chars@ == text@,
            out@ == shifted_text(text@, offsets@).take(i as int),
        decreases chars.len() - i,
    {
        let moved = perturb_char(chars[i], offsets[i]);
        push_char(&mut out, moved);
        i += 1;
    }
    Ok(out)
}

/// The buffer pass with sampled offsets: every character of the buffer is
/// shifted by the offset at its position, and stays as it is where the shift
/// would not give a character. With too few offsets the buffer is untouched.
pub fn add_laplace_noise(buffer: &mut String, offsets: &Vec<i32>) -> (r: Result<(), NoiseError>)
    ensures
        match r {
            Ok(_) => old(buffer)@.len() <= offsets@.len() && final(buffer)@ == shifted_text(
                old(buffer)@,
                offsets@,
            ),
            Err(e) => old(buffer)@.len() > offsets@.len() && final(buffer)@ == old(buffer)@ && e
                == (NoiseError::TooFewOffsets {
                needed: old(buffer)@.len() as usize,
                given: offsets.len(),
            }),
        },
{
    match perturb_text(buffer.as_str(), offsets) {
        Ok(out) => {
            *buffer = out;
            Ok(())
        },
        Err(e) => Err(e),
    }
}

/// Trusted: declares `rand::rngs::ThreadRng`, the handle to the calling
/// thread's generator, as a type whose inside is not looked at.
#[verifier::external_type_specification]
#[verifier::external_body]
pub struct ExThreadRng(rand::rngs::ThreadRng);

/// Trusted: `rand::thread_rng` hands out the calling thread's generator.
/// Nothing is claimed of it.
pub assume_specification[ rand::thread_rng ]() -> (rng: rand::rngs::ThreadRng)
;

/// Draws a shift between 0 and `max`, both included.
///
/// Trusted: this is `Rng::gen_range` on the inclusive range `0..=max`, which
/// is never empty and whose samples lie within the range. Two draws may
/// differ; only the bound is claimed.
#[verifier::external_body]
fn draw_shift(rng: &mut rand::rngs::ThreadRng, max: u8) -> (r: u8)
    ensures
        r <= max,
{
    rng.gen_range(0..=max)
}

/// The buffer pass with uniform noise: every character is shifted forward by
/// a freshly drawn number of code points between 0 and `MAX_UNIFORM_SHIFT`,
/// and stays as it is where the shift would not give a character.
pub fn add_random_noise(buffer: &mut String)
    ensures
        final(buffer)@.len() == old(buffer)@.len(),
        forall|i: int|
            0 <= i < old(buffer)@.len() ==> within_shift(
                old(buffer)@[i],
                #[trigger] final(buffer)@[i],
                MAX_UNIFORM_SHIFT as int,
            ),
{
    let chars = chars_of(buffer.as_str());
    let mut rng = rand::thread_rng();
    let mut out = String::new();
    let mut i: usize = 0;
    while i < chars.len()
        invariant
            i <= chars.len(),
            out@.len() == i,
            forall|k: int|
                0 <= k < i ==> within_shift(
                    chars@[k],
                    #[trigger] out@[k],
                    MAX_UNIFORM_SHIFT as int,
                ),
        decreases chars.len() - i,
    {
        let shift = draw_shift(&mut rng, MAX_UNIFORM_SHIFT);
        let moved = perturb_char(chars[i], shift as i32);
        assert(moved == shifted(chars@[i as int], shift as int));
        push_char(&mut out, moved);
        i += 1;
    }
    *buffer = out;
}

} // verus!
