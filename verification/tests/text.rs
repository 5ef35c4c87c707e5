use vault64::text::{
    chars_of, contains, decimal, ends_with, is_white_space, join, join3, line_head, nth_piece,
    parse_u32, same_text, starts_with, strip_start, take_before, text_of, trim,
};

#[test]
fn white_space_is_that_of_std() {
    for code in 0..=0x10ffff_u32 {
        if let Some(c) = char::from_u32(code) {
            assert_eq!(is_white_space(c), c.is_whitespace(), "{:x}", code);
        }
    }
}

#[test]
fn trims_like_std() {
    for s in ["", " ", "a", " a b ", "\t\u{a0}x\u{3000}\n", "  v1.2 ", "\u{200b}a\u{200b}"] {
        assert_eq!(trim(s), s.trim());
    }
}

#[test]
fn strips_a_leading_run() {
    assert_eq!(strip_start("vvv1.v2", 'v'), "1.v2");
    assert_eq!(strip_start("1", 'v'), "1");
    assert_eq!(strip_start("vv", 'v'), "");
}

#[test]
fn divides_like_std() {
    for s in ["", "a", "a.b", ".a.", "1.2.3.4", "..", "ä.ö"] {
        let parts: Vec<&str> = s.split('.').collect();
        for k in 0..6 {
            assert_eq!(nth_piece(s, '.', k).as_deref(), parts.get(k).copied());
        }
        assert_eq!(take_before(s, '.'), parts[0]);
    }
}

#[test]
fn parses_numbers_like_std() {
    for s in [
        "", "+", "-", "0", "7", "+7", "-7", "007", "4294967295", "4294967296", "99999999999999999999",
        "1a", "a1", " 1", "++1", "+4294967295", "١",
    ] {
        assert_eq!(parse_u32(s), s.parse::<u32>().ok(), "{}", s);
    }
}

#[test]
fn finds_texts_like_std() {
    let texts = ["", "a", "ab", "aab", "abab", "mario kart", "ärger", "Error: no", "aaa.7z"];
    for s in texts {
        for q in ["", "a", "b", "ab", "aab", "kart", "Error", ".7z", "äx", "mario kart 8"] {
            assert_eq!(contains(s, q), s.contains(q), "{} {}", s, q);
            assert_eq!(starts_with(s, q), s.starts_with(q), "{} {}", s, q);
            assert_eq!(ends_with(s, q), s.ends_with(q), "{} {}", s, q);
        }
    }
}

#[test]
fn compares_and_joins() {
    assert!(same_text("abc", "abc"));
    assert!(!same_text("abc", "abd"));
    assert!(!same_text("abc", "ab"));
    assert_eq!(join("Error: ", "x"), "Error: x");
    assert_eq!(join3("Version ", "v4", " is available."), "Version v4 is available.");
}

#[test]
fn takes_characters_apart_and_together() {
    let chars = chars_of("añb");
    assert_eq!(chars, vec!['a', 'ñ', 'b']);
    assert_eq!(text_of(&chars, 1, 3), "ñb");
    assert_eq!(text_of(&chars, 2, 2), "");
}

#[test]
fn writes_numbers_like_std() {
    for n in [0u128, 7, 9, 10, 99, 100, 4711, 1_700_000_000_123, u128::MAX] {
        assert_eq!(decimal(n), n.to_string());
    }
}

#[test]
fn numbers_are_read_back() {
    for n in [0u32, 1, 9, 10, 65536, u32::MAX] {
        assert_eq!(parse_u32(&decimal(n as u128)), Some(n));
    }
}

#[test]
fn different_numbers_are_written_differently() {
    let written: Vec<String> = (0u128..200).map(decimal).collect();
    for a in 0..written.len() {
        for b in 0..a {
            assert_ne!(written[a], written[b]);
        }
    }
}

#[test]
fn first_lines_are_those_of_std() {
    for s in ["", "one", "one\ntwo", "one\r\ntwo", "\ntwo", "one\r", "one\r\r\nx", "a\rb\nc", "ñandú\n"] {
        let expected: String = s.lines().next().unwrap_or("").chars().take(90).collect();
        assert_eq!(line_head(s, 90), expected, "{:?}", s);
    }
    assert_eq!(line_head("abcdef\nx", 3), "abc");
    assert_eq!(line_head("abc\nx", 3), "abc");
    assert_eq!(line_head("abc", 0), "");
}

#[test]
fn trimming_is_final() {
    for s in ["", "  a ", "\u{3000}b\u{a0}c\n", "   "] {
        assert_eq!(trim(&trim(s)), trim(s));
    }
}
