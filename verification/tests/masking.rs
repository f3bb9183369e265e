use veil::directive::{Mask, PartialMask};
use veil::mask::redact_text;

fn partial(front: u32, back: u32, mask: char) -> Mask {
    Mask::Partial(PartialMask { front, back, mask })
}

#[test]
fn fixed_length_does_not_depend_on_the_value() {
    for value in ["", "4", "42", "a much longer value than the mask", "héllo wörld"] {
        for n in [0u32, 1, 3, 17] {
            let out = redact_text(&Mask::Fixed(n), value).unwrap();
            assert_eq!(out.chars().count(), n as usize);
            assert!(out.chars().all(|c| c == '*'));
        }
    }
}

#[test]
fn fixed_three_on_forty_two() {
    assert_eq!(redact_text(&Mask::Fixed(3), "42"), Some("***".to_string()));
}

#[test]
fn skip_gives_nothing() {
    assert_eq!(redact_text(&Mask::Skip, "secret"), None);
    assert_eq!(redact_text(&Mask::Skip, ""), None);
}

#[test]
fn unmasked_gives_the_value() {
    assert_eq!(redact_text(&Mask::Unmasked, "plain"), Some("plain".to_string()));
}

#[test]
fn partial_keeps_both_ends() {
    assert_eq!(redact_text(&partial(2, 3, '#'), "1234567890"), Some("12#####890".to_string()));
    assert_eq!(redact_text(&partial(0, 4, '*'), "4111111111111111"), Some("************1111".to_string()));
    assert_eq!(redact_text(&partial(1, 0, 'x'), "abc"), Some("axx".to_string()));
    assert_eq!(redact_text(&partial(0, 0, '-'), "abc"), Some("---".to_string()));
}

#[test]
fn partial_counts_characters_not_bytes() {
    assert_eq!(redact_text(&partial(1, 1, '*'), "äöüß"), Some("ä**ß".to_string()));
}

#[test]
fn partial_reveals_a_value_without_a_middle() {
    assert_eq!(redact_text(&partial(2, 3, '#'), "12345"), Some("12345".to_string()));
    assert_eq!(redact_text(&partial(2, 3, '#'), "1234"), Some("1234".to_string()));
    assert_eq!(redact_text(&partial(9, 9, '#'), ""), Some("".to_string()));
    assert_eq!(
        redact_text(&partial(u32::MAX, u32::MAX, '#'), "short"),
        Some("short".to_string())
    );
}

#[test]
fn partial_with_one_character_in_the_middle() {
    assert_eq!(redact_text(&partial(2, 3, '#'), "123456"), Some("12#456".to_string()));
}
