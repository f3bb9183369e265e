use veil::directive::{Directive, PartialMask};
use veil::parser::parse_directive;
use veil::printer::{directive_text, list_settings, Setting};

fn plain() -> Directive {
    Directive { skip: false, fixed: None, partial: None, all: false, variant: false, display: false }
}

#[test]
fn canonical_text_of_each_option() {
    assert_eq!(directive_text(&plain()), "");
    assert_eq!(directive_text(&Directive { skip: true, ..plain() }), "skip");
    assert_eq!(directive_text(&Directive { fixed: Some(12), ..plain() }), "fixed=12");
    assert_eq!(
        directive_text(&Directive {
            partial: Some(PartialMask { front: 2, back: 40, mask: '#' }),
            ..plain()
        }),
        "partial(front=2, back=40, char=#)"
    );
    assert_eq!(directive_text(&Directive { all: true, ..plain() }), "all");
    assert_eq!(directive_text(&Directive { variant: true, ..plain() }), "variant");
    assert_eq!(directive_text(&Directive { display: true, ..plain() }), "display");
}

#[test]
fn options_are_printed_in_a_fixed_order() {
    let d = Directive {
        skip: true,
        fixed: Some(0),
        partial: Some(PartialMask { front: 0, back: u32::MAX, mask: ')' }),
        all: true,
        variant: true,
        display: true,
    };
    assert_eq!(
        directive_text(&d),
        "skip, fixed=0, partial(front=0, back=4294967295, char=)), all, variant, display"
    );
    assert_eq!(
        list_settings(&d),
        vec![
            Setting::Skip,
            Setting::Fixed(0),
            Setting::Partial(PartialMask { front: 0, back: u32::MAX, mask: ')' }),
            Setting::All,
            Setting::Variant,
            Setting::Display,
        ]
    );
}

#[test]
fn what_is_printed_is_read_back() {
    let masks = [None, Some(PartialMask { front: 3, back: 0, mask: '*' }), Some(PartialMask { front: 10, back: 7, mask: ',' })];
    let fixed = [None, Some(0), Some(9), Some(u32::MAX)];
    for bits in 0u8..16 {
        for partial in masks {
            for n in fixed {
                let d = Directive {
                    skip: bits & 1 != 0,
                    all: bits & 2 != 0,
                    variant: bits & 4 != 0,
                    display: bits & 8 != 0,
                    fixed: n,
                    partial,
                };
                let text = directive_text(&d);
                assert_eq!(parse_directive(&text), Ok(d), "{}", text);
            }
        }
    }
}

#[test]
fn a_blank_mask_character_is_not_read_back() {
    let d = Directive { partial: Some(PartialMask { front: 1, back: 1, mask: ' ' }), ..plain() };
    let text = directive_text(&d);
    assert_eq!(text, "partial(front=1, back=1, char= )");
    assert!(parse_directive(&text).is_err());
}
