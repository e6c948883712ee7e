use ploy_clean::utils::text::{is_white_space, split_whitespace, str_contains, text_chars, usize_to_text};

#[test]
fn white_space_agrees_with_std_on_every_char() {
    for u in 0u32..=0x10FFFF {
        if let Some(c) = char::from_u32(u) {
            assert_eq!(is_white_space(c), c.is_whitespace(), "U+{:04X}", u);
        }
    }
}

#[test]
fn words_agree_with_std() {
    let samples = [
        "",
        "   ",
        "bitcoin",
        "  Bitcoin   price\tabove\n100k ",
        "a\u{3000}b\u{00A0}c\u{2028}d",
        "élection présidentielle",
        "x  ",
    ];
    for s in samples {
        let expected: Vec<String> = s.split_whitespace().map(|w| w.to_string()).collect();
        assert_eq!(split_whitespace(s), expected, "{:?}", s);
    }
}

#[test]
fn contains_agrees_with_std() {
    let cases = [
        ("bitcoin price", "price"),
        ("bitcoin price", ""),
        ("", ""),
        ("", "a"),
        ("ab", "abc"),
        ("aab", "ab"),
        ("présidentielle", "sid"),
        ("abcabd", "abd"),
        ("abc", "abd"),
    ];
    for (text, pattern) in cases {
        assert_eq!(str_contains(text, pattern), text.contains(pattern), "{:?} in {:?}", pattern, text);
    }
}

#[test]
fn decimal_rendering_agrees_with_std() {
    for n in [0usize, 7, 9, 10, 42, 100, 999, 1000, 123456789, usize::MAX] {
        assert_eq!(usize_to_text(n), n.to_string());
    }
}

#[test]
fn chars_of_a_text() {
    assert_eq!(text_chars("é1 x"), vec!['é', '1', ' ', 'x']);
}
