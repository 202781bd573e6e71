use adit_ui::text::{
    comes_before, contains_text, decimal_of, first_index_of, is_blank, is_white, join,
    last_index_of, lines, padded_decimal_of, parse_unsigned, replace, split_any, starts_with, trim,
    trim_end,
};

#[test]
fn white_space_is_what_unicode_says() {
    for code in 0..=0x10FFFFu32 {
        if let Some(c) = char::from_u32(code) {
            assert_eq!(is_white(c), c.is_whitespace(), "{code:x}");
        }
    }
}

#[test]
fn texts_are_trimmed_on_both_sides() {
    for s in ["", "  ", " a b ", "\u{3000}x\t", "x", "\u{a0}y\u{2003}"] {
        assert_eq!(trim(s), s.trim());
        assert_eq!(trim_end(s), s.trim_end());
        assert_eq!(is_blank(s), s.trim().is_empty());
    }
}

#[test]
fn parts_are_found_and_replaced() {
    for (hay, needle) in [("abab", "ab"), ("aaa", "aa"), ("", "x"), ("x", ""), ("日本語", "本")] {
        assert_eq!(contains_text(hay, needle), hay.contains(needle));
        assert_eq!(starts_with(hay, needle), hay.starts_with(needle));
    }
    assert_eq!(replace("aXbXX", "X", "--"), "aXbXX".replace("X", "--"));
    assert_eq!(replace("aaa", "aa", "b"), "aaa".replace("aa", "b"));
    let chars: Vec<char> = "a@b@c".chars().collect();
    assert_eq!(first_index_of(&chars, '@'), Some(1));
    assert_eq!(last_index_of(&chars, '@'), Some(3));
    assert_eq!(last_index_of(&chars, '!'), None);
}

#[test]
fn texts_are_split_and_joined() {
    let separators = [',', ';'];
    for s in ["a,b;c", "", ",", "a;;b"] {
        let ours = split_any(s, &separators);
        let theirs: Vec<&str> = s.split([',', ';']).collect();
        assert_eq!(ours, theirs);
    }
    assert_eq!(join(&vec![String::from("a"), String::from("b")], ", "), "a, b");
    for s in ["", "\n", "a\nb", "a\r\nb\n", "a\n\n", "\r", "a\r"] {
        let theirs: Vec<&str> = s.lines().collect();
        assert_eq!(lines(s), theirs, "{s:?}");
    }
}

#[test]
fn texts_are_ordered_as_strings_are() {
    let all = ["", "a", "B", "ab", "b", "z", "é", "日本", "日", "\u{10000}", "\u{ffff}"];
    for a in all {
        for b in all {
            assert_eq!(comes_before(a, b), a < b);
        }
    }
}

#[test]
fn numbers_are_written_and_read() {
    for n in [0u64, 9, 10, 255, 65_535, 1_000_000, u64::MAX] {
        assert_eq!(decimal_of(n), n.to_string());
        assert_eq!(parse_unsigned(&n.to_string(), u64::MAX), Some(n));
    }
    assert_eq!(padded_decimal_of(7, 2), "07");
    assert_eq!(padded_decimal_of(1234, 2), "1234");
    for s in ["", "+", "+7", "-1", "65535", "65536", "007", "1x", " 1"] {
        assert_eq!(parse_unsigned(s, 65_535), s.parse::<u16>().ok().map(u64::from), "{s}");
    }
}
