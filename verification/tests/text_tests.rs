use cmatrix::text::{chars_of, find, parse_u64, white_space, word_at};

fn chars(s: &str) -> Vec<char> {
    s.chars().collect()
}

#[test]
fn chars_of_a_string() {
    assert_eq!(chars_of("añb"), vec!['a', 'ñ', 'b']);
    assert_eq!(chars_of(""), Vec::<char>::new());
}

#[test]
fn find_the_first_occurrence() {
    assert_eq!(find(&chars("abcabc"), &chars("bc")), Some(1));
    assert_eq!(find(&chars("abc"), &chars("")), Some(0));
    assert_eq!(find(&chars("abc"), &chars("abcd")), None);
    assert_eq!(find(&chars("abc"), &chars("x")), None);
    for (s, p) in [("eth0: 1", "eth0"), ("xxeth0", "eth0"), ("é eth0", "eth0")] {
        let expected = s.find(p).map(|b| s[..b].chars().count());
        assert_eq!(find(&chars(s), &chars(p)), expected);
    }
}

#[test]
fn words_split_at_white_space() {
    let s = chars("  a bb\t\u{a0}ccc\n");
    assert_eq!(word_at(&s, 0), Some(chars("a")));
    assert_eq!(word_at(&s, 1), Some(chars("bb")));
    assert_eq!(word_at(&s, 2), Some(chars("ccc")));
    assert_eq!(word_at(&s, 3), None);
    let text = "  x\u{2003}y \u{85} zz ";
    let expected: Vec<Vec<char>> = text.split_whitespace().map(chars).collect();
    for (k, w) in expected.iter().enumerate() {
        assert_eq!(word_at(&chars(text), k).as_ref(), Some(w));
    }
    assert_eq!(word_at(&chars(text), expected.len()), None);
}

#[test]
fn white_space_is_unicode_white_space() {
    for c in ['\t', '\n', '\u{b}', '\u{c}', '\r', ' ', '\u{85}', '\u{a0}', '\u{2000}', '\u{3000}', 'a', '0', '\u{200b}'] {
        assert_eq!(white_space(c), c.is_whitespace());
    }
}

#[test]
fn parse_numbers() {
    assert_eq!(parse_u64(&chars("0")), Some(0));
    assert_eq!(parse_u64(&chars("+12")), Some(12));
    assert_eq!(parse_u64(&chars("")), None);
    assert_eq!(parse_u64(&chars("1 2")), None);
    assert_eq!(parse_u64(&chars("18446744073709551615")), Some(u64::MAX));
    assert_eq!(parse_u64(&chars("18446744073709551616")), None);
}
