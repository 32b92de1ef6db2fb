use flac2alac::text::{
    char_is_white_space, char_lower_code, eq_ignore_ascii_case, to_chars, trim_bounds,
};

fn chars(s: &str) -> Vec<char> {
    s.chars().collect()
}

fn trimmed(s: &str) -> String {
    let c = chars(s);
    let (a, b) = trim_bounds(&c);
    c[a..b].iter().collect()
}

#[test]
fn to_chars_gives_the_characters_in_order() {
    assert_eq!(to_chars(""), Vec::<char>::new());
    assert_eq!(to_chars("abc"), vec!['a', 'b', 'c']);
    assert_eq!(to_chars("é→x"), vec!['é', '→', 'x']);
}

#[test]
fn white_space_is_what_std_calls_white_space() {
    for n in 0u32..=0x10ffff {
        if let Some(c) = char::from_u32(n) {
            assert_eq!(char_is_white_space(c), c.is_whitespace(), "U+{:04X}", n);
        }
    }
}

#[test]
fn lower_code_folds_only_the_ascii_capitals() {
    for n in 0u32..=0x10ffff {
        if let Some(c) = char::from_u32(n) {
            assert_eq!(char_lower_code(c), c.to_ascii_lowercase() as u32, "U+{:04X}", n);
        }
    }
    assert_eq!(char_lower_code('A'), 'a' as u32);
    assert_eq!(char_lower_code('Z'), 'z' as u32);
    assert_eq!(char_lower_code('@'), '@' as u32);
    assert_eq!(char_lower_code('['), '[' as u32);
    assert_eq!(char_lower_code('É'), 'É' as u32);
}

#[test]
fn comparison_ignores_the_case_of_ascii_letters_only() {
    assert!(eq_ignore_ascii_case(&chars("flac"), &chars("FLAC")));
    assert!(eq_ignore_ascii_case(&chars("FlAc"), &chars("fLaC")));
    assert!(eq_ignore_ascii_case(&chars(""), &chars("")));
    assert!(!eq_ignore_ascii_case(&chars("flac"), &chars("fla")));
    assert!(!eq_ignore_ascii_case(&chars("fla"), &chars("flac")));
    assert!(!eq_ignore_ascii_case(&chars("flac"), &chars("flab")));
    assert!(!eq_ignore_ascii_case(&chars("é"), &chars("É")));
    assert!(!eq_ignore_ascii_case(&chars("@"), &chars("`")));
}

#[test]
fn trim_bounds_cut_the_white_space_at_both_ends() {
    assert_eq!(trim_bounds(&chars("")), (0, 0));
    assert_eq!(trim_bounds(&chars("abc")), (0, 3));
    assert_eq!(trim_bounds(&chars("  abc")), (2, 5));
    assert_eq!(trim_bounds(&chars("abc \n")), (0, 3));
    assert_eq!(trim_bounds(&chars(" \t a b \r\n")), (3, 6));
    assert_eq!(trim_bounds(&chars("   ")), (3, 3));
    assert_eq!(trim_bounds(&chars("\u{a0}x\u{3000}")), (1, 2));
}

#[test]
fn trimming_agrees_with_std_trim() {
    let samples = [
        "", " ", "y", " y", "y ", " y ", "\ty\r\n", "a b", "  a  b  ", "\u{2003}oui\u{2028}",
        "\u{200b}x", "\n\n", "x\u{85}", "\u{1680}\u{180e}z",
    ];
    for s in samples {
        assert_eq!(trimmed(s), s.trim(), "{:?}", s);
    }
}
