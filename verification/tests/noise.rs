use veil::message::describe_parameter;
use veil::noise::{
    add_laplace_noise, add_random_noise, apply_noise, perturb_char, perturb_text, NoiseError,
    NoiseParameter, NoiseSpec,
};

#[test]
fn noise_is_added_and_rounded_values_stay_exact() {
    assert_eq!(apply_noise(50, 7), 57);
    assert_eq!(apply_noise(50, -7), 43);
    assert_eq!(apply_noise(170, 0), 170);
}

#[test]
fn noised_values_are_never_negative() {
    assert_eq!(apply_noise(50, -51), 0);
    assert_eq!(apply_noise(50, -120_208), 0);
    assert_eq!(apply_noise(0, i64::MIN), 0);
    assert_eq!(apply_noise(i64::MIN, i64::MIN), 0);
    assert_eq!(apply_noise(-3, 2), 0);
    for offset in [-1_000_000_000_000i64, -85_000, -1, 0, 1, 85_000, 1_000_000_000_000] {
        for value in [0i64, 50, 170, 70] {
            assert!(apply_noise(value, offset) >= 0);
        }
    }
}

#[test]
fn noised_values_stop_at_the_largest_value() {
    assert_eq!(apply_noise(i64::MAX, 1), i64::MAX);
    assert_eq!(apply_noise(i64::MAX, i64::MAX), i64::MAX);
    assert_eq!(apply_noise(i64::MAX - 1, 1), i64::MAX);
}

#[test]
fn noise_parameters_have_to_be_positive() {
    let spec = NoiseSpec::new(8_500_000_000, 100_000).unwrap();
    assert_eq!(spec.sensitivity_micros(), 8_500_000_000);
    assert_eq!(spec.epsilon_micros(), 100_000);
    assert_eq!(
        NoiseSpec::new(0, 100_000),
        Err(NoiseError::InvalidNoiseParameters(NoiseParameter::Sensitivity))
    );
    assert_eq!(
        NoiseSpec::new(-1, 100_000),
        Err(NoiseError::InvalidNoiseParameters(NoiseParameter::Sensitivity))
    );
    assert_eq!(
        NoiseSpec::new(3_000_000, 0),
        Err(NoiseError::InvalidNoiseParameters(NoiseParameter::Epsilon))
    );
    assert_eq!(
        NoiseSpec::new(3_000_000, i64::MIN),
        Err(NoiseError::InvalidNoiseParameters(NoiseParameter::Epsilon))
    );
    assert_eq!(
        NoiseSpec::new(0, 0),
        Err(NoiseError::InvalidNoiseParameters(NoiseParameter::Sensitivity))
    );
}

#[test]
fn rejected_parameter_is_named() {
    assert_eq!(describe_parameter(NoiseParameter::Sensitivity), "sensitivity has to be positive");
    assert_eq!(describe_parameter(NoiseParameter::Epsilon), "epsilon has to be positive");
}

#[test]
fn characters_are_shifted_by_code_points() {
    assert_eq!(perturb_char('a', 1), 'b');
    assert_eq!(perturb_char('b', -1), 'a');
    assert_eq!(perturb_char('a', 0), 'a');
    assert_eq!(perturb_char('\u{D7FE}', 1), '\u{D7FF}');
    assert_eq!(perturb_char('\u{D7FF}', 0x801), '\u{E000}');
}

#[test]
fn a_shift_out_of_the_characters_leaves_the_character() {
    assert_eq!(perturb_char('\u{D7FF}', 1), '\u{D7FF}');
    assert_eq!(perturb_char('\u{E000}', -1), '\u{E000}');
    assert_eq!(perturb_char('\u{10FFFF}', 1), '\u{10FFFF}');
    assert_eq!(perturb_char('\0', -1), '\0');
    assert_eq!(perturb_char('a', i32::MIN), 'a');
    assert_eq!(perturb_char('a', i32::MAX), 'a');
}

#[test]
fn text_is_shifted_position_by_position() {
    assert_eq!(perturb_text("abc", &vec![1, 0, -1]), Ok("bbb".to_string()));
    assert_eq!(perturb_text("abc", &vec![1, 0, -1, 9]), Ok("bbb".to_string()));
    assert_eq!(perturb_text("", &Vec::new()), Ok(String::new()));
    assert_eq!(
        perturb_text("abc", &vec![1, 0]),
        Err(NoiseError::TooFewOffsets { needed: 3, given: 2 })
    );
}

#[test]
fn laplace_pass_keeps_the_buffer_valid_text() {
    let mut buffer = String::from("Id { n: \u{D7FF}\u{10FFFF} }");
    let offsets = vec![3; 13];
    assert_eq!(add_laplace_noise(&mut buffer, &offsets), Ok(()));
    assert_eq!(buffer, "Lg#~#q=#\u{D7FF}\u{10FFFF}#\u{80}");
    let mut short = String::from("abc");
    assert_eq!(
        add_laplace_noise(&mut short, &vec![5]),
        Err(NoiseError::TooFewOffsets { needed: 3, given: 1 })
    );
    assert_eq!(short, "abc");
}

#[test]
fn uniform_pass_shifts_by_at_most_five() {
    let before: String = "a".repeat(4000);
    let mut buffer = before.clone();
    add_random_noise(&mut buffer);
    assert_eq!(buffer.chars().count(), 4000);
    assert!(buffer.chars().all(|c| ('a'..='f').contains(&c)));
    assert!(buffer.chars().any(|c| c != 'f'));
    assert!(buffer.chars().any(|c| c != 'a'));
    let mut edge = String::from("\u{10FFFF}\u{10FFFF}\u{10FFFF}");
    add_random_noise(&mut edge);
    for c in edge.chars() {
        assert!(c == '\u{10FFFF}');
    }
}
