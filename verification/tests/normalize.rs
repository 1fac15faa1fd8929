//! The identifier normalizer.
use rp_tool::config::parser::clean_input;

#[test]
fn normalize_accented_capital_e() {
    assert_eq!(clean_input('\u{c9}'), 'e');
}

#[test]
fn normalize_blank_to_underscore() {
    assert_eq!(clean_input(' '), '_');
}

#[test]
fn normalize_separators() {
    assert_eq!(clean_input('-'), '_');
    assert_eq!(clean_input('/'), '_');
}

#[test]
fn normalize_accent_table() {
    for (input, expected) in [
        ('\u{e9}', 'e'),
        ('\u{e8}', 'e'),
        ('\u{ea}', 'e'),
        ('\u{eb}', 'e'),
        ('\u{e0}', 'a'),
        ('\u{e2}', 'a'),
        ('\u{ef}', 'i'),
        ('\u{f4}', 'o'),
        ('\u{153}', 'e'),
    ] {
        assert_eq!(clean_input(input), expected);
    }
}

#[test]
fn normalize_ascii_uppercase() {
    assert_eq!(clean_input('A'), 'a');
    assert_eq!(clean_input('Z'), 'z');
}

#[test]
fn normalize_plain_ascii_unchanged() {
    assert_eq!(clean_input('a'), 'a');
    assert_eq!(clean_input('_'), '_');
    assert_eq!(clean_input('7'), '7');
    assert_eq!(clean_input('!'), '!');
}

#[test]
fn normalize_exotic_letter_lowercased() {
    assert_eq!(clean_input('\u{414}'), '\u{434}');
}

#[test]
fn normalize_idempotent_on_normalized_ascii() {
    let inputs = ["already_lower", "with_7_digits", "plain"];
    for s in inputs {
        let once: String = s.chars().map(clean_input).collect();
        let twice: String = once.chars().map(clean_input).collect();
        assert_eq!(once, twice);
        assert_eq!(once, s);
    }
}

#[test]
fn normalize_same_as_stats_copy() {
    for c in ['\u{c9}', ' ', 'A', 'x', '\u{f4}'] {
        assert_eq!(clean_input(c), rp_tool::stats::clean_input(c));
    }
}
