use todo_adapter::text::{chars_of, find_char, is_space_char, parse_decimal};
use todo_adapter::text::{skip_char_run, trim_back, trim_front};

fn chars(s: &str) -> Vec<char> {
    s.chars().collect()
}

#[test]
fn chars_are_listed_in_order() {
    assert_eq!(chars_of("a🎯b"), vec!['a', '🎯', 'b']);
    assert_eq!(chars_of(""), Vec::<char>::new());
}

#[test]
fn white_space_is_the_unicode_property() {
    for c in ['\t', '\n', '\u{b}', '\u{c}', '\r', ' ', '\u{85}', '\u{a0}', '\u{1680}', '\u{2000}',
        '\u{2005}', '\u{200a}', '\u{2028}', '\u{2029}', '\u{202f}', '\u{205f}', '\u{3000}']
    {
        assert!(is_space_char(c));
        assert!(c.is_whitespace());
    }
    for c in ['a', '0', '[', '\u{8}', '\u{e}', '\u{200b}', '\u{feff}', '\u{180e}', '🎯'] {
        assert!(!is_space_char(c));
        assert!(!c.is_whitespace());
    }
}

#[test]
fn white_space_agrees_with_std_everywhere() {
    let mut n: u32 = 0;
    while n <= 0x10ffff {
        if let Some(c) = char::from_u32(n) {
            assert_eq!(is_space_char(c), c.is_whitespace());
        }
        n += 1;
    }
}

#[test]
fn first_occurrence_is_found_in_the_window() {
    let s = chars("a]b]c");
    assert_eq!(find_char(&s, ']', 0, 5), 1);
    assert_eq!(find_char(&s, ']', 2, 5), 3);
    assert_eq!(find_char(&s, ']', 4, 5), 5);
    assert_eq!(find_char(&s, ']', 0, 1), 1);
    assert_eq!(find_char(&s, 'x', 0, 5), 5);
    assert_eq!(find_char(&s, 'a', 0, 0), 0);
}

#[test]
fn runs_and_white_space_are_stepped_over() {
    let s = chars("[[ 12 \u{3000}]");
    assert_eq!(skip_char_run(&s, '[', 0, 8), 2);
    assert_eq!(skip_char_run(&s, '[', 0, 1), 1);
    assert_eq!(skip_char_run(&s, 'x', 0, 8), 0);
    assert_eq!(trim_front(&s, 2, 7), 3);
    assert_eq!(trim_back(&s, 3, 7), 5);
    assert_eq!(trim_front(&s, 5, 7), 7);
    assert_eq!(trim_back(&s, 5, 7), 5);
    assert_eq!(trim_back(&s, 0, 8), 8);
}

#[test]
fn decimals_are_read_as_std_reads_them() {
    for text in ["0", "7", "007", "+5", "4294967295", "4294967296", "99999999999999999999999",
        "00000000000000000000000000001", "", "+", "-", "-1", "++1", "1+", "1 ", " 1", "1a", "٣",
        "+0", "12345"]
    {
        let s = chars(text);
        assert_eq!(parse_decimal(&s, 0, s.len()), text.parse::<u32>().ok());
    }
    let s = chars("ab123cd");
    assert_eq!(parse_decimal(&s, 2, 5), Some(123));
    assert_eq!(parse_decimal(&s, 2, 6), None);
    assert_eq!(parse_decimal(&s, 3, 3), None);
}
