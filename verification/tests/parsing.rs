use veil::directive::{Directive, PartialMask};
use veil::parser::{parse_directive, parse_instances, MalformedDirective};

fn plain() -> Directive {
    Directive { skip: false, fixed: None, partial: None, all: false, variant: false, display: false }
}

#[test]
fn single_options() {
    assert_eq!(parse_directive("skip"), Ok(Directive { skip: true, ..plain() }));
    assert_eq!(parse_directive("all"), Ok(Directive { all: true, ..plain() }));
    assert_eq!(parse_directive("variant"), Ok(Directive { variant: true, ..plain() }));
    assert_eq!(parse_directive("display"), Ok(Directive { display: true, ..plain() }));
    assert_eq!(parse_directive("fixed=3"), Ok(Directive { fixed: Some(3), ..plain() }));
}

#[test]
fn partial_with_its_arguments() {
    let expected = Directive {
        partial: Some(PartialMask { front: 2, back: 4, mask: '#' }),
        ..plain()
    };
    assert_eq!(parse_directive("partial(front=2, back=4, char=#)"), Ok(expected));
    assert_eq!(parse_directive("partial ( front = 2 ,back= 4, char = # )"), Ok(expected));
}

#[test]
fn mask_character_may_be_a_bracket_or_a_letter() {
    let bracket = parse_directive("partial(front=0, back=0, char=))").unwrap();
    assert_eq!(bracket.partial.unwrap().mask, ')');
    let letter = parse_directive("partial(front=0, back=0, char=x)").unwrap();
    assert_eq!(letter.partial.unwrap().mask, 'x');
    let wide = parse_directive("partial(front=0, back=0, char=█)").unwrap();
    assert_eq!(wide.partial.unwrap().mask, '█');
}

#[test]
fn several_options_in_one_instance() {
    assert_eq!(
        parse_directive("all, variant, fixed = 5"),
        Ok(Directive { all: true, variant: true, fixed: Some(5), ..plain() })
    );
    assert_eq!(
        parse_directive("  display ,skip  "),
        Ok(Directive { display: true, skip: true, ..plain() })
    );
}

#[test]
fn an_option_given_again_replaces_the_first() {
    assert_eq!(parse_directive("fixed=2, fixed=7"), Ok(Directive { fixed: Some(7), ..plain() }));
    assert_eq!(parse_directive("skip, skip"), Ok(Directive { skip: true, ..plain() }));
}

#[test]
fn empty_text_sets_nothing() {
    assert_eq!(parse_directive(""), Ok(plain()));
    assert_eq!(parse_directive("  \t\n"), Ok(plain()));
}

#[test]
fn numbers_up_to_32_bits() {
    assert_eq!(
        parse_directive("fixed=4294967295"),
        Ok(Directive { fixed: Some(u32::MAX), ..plain() })
    );
    assert_eq!(parse_directive("fixed=007"), Ok(Directive { fixed: Some(7), ..plain() }));
    assert_eq!(parse_directive("fixed=0"), Ok(Directive { fixed: Some(0), ..plain() }));
    assert_eq!(parse_directive("fixed=4294967296"), Err(MalformedDirective));
    assert_eq!(parse_directive("fixed=99999999999999999999999999"), Err(MalformedDirective));
}

#[test]
fn malformed_texts() {
    for text in [
        "skipp",
        "Skip",
        "fixed",
        "fixed=",
        "fixed=x",
        "fixed=-1",
        "fixed 3",
        "skip,",
        ",skip",
        "skip,,all",
        "skip all",
        "partial",
        "partial()",
        "partial(front=1)",
        "partial(front=1, back=2)",
        "partial(back=2, front=1, char=#)",
        "partial(front=1, back=2, char=)",
        "partial(front=1, back=2, char=##)",
        "partial(front=1, back=2, char=#",
        "redact",
        "=",
        "3",
    ] {
        assert_eq!(parse_directive(text), Err(MalformedDirective), "{}", text);
    }
}

#[test]
fn instances_are_parsed_in_order() {
    let texts = vec!["all, fixed=2".to_string(), "variant".to_string()];
    assert_eq!(
        parse_instances(&texts),
        Ok(vec![
            Directive { all: true, fixed: Some(2), ..plain() },
            Directive { variant: true, ..plain() },
        ])
    );
    let broken = vec!["all".to_string(), "fixd=2".to_string(), "nope".to_string()];
    assert_eq!(parse_instances(&broken), Err(1));
    assert_eq!(parse_instances(&Vec::new()), Ok(Vec::new()));
}
