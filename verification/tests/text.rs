use mc_tui::text::{
    decimal_of, is_whitespace, lines_of, pad_left, pad_right, parse_number, trim,
};

#[test]
fn white_space_is_that_of_char() {
    for c in '\0'..=char::MAX {
        assert_eq!(is_whitespace(c), c.is_whitespace(), "{c:?}");
    }
}

#[test]
fn trimming_matches_str() {
    for s in ["", " ", "a", " a ", "\t\na b\u{a0}\r", "\u{3000}名\u{3000}", "\u{200b}x"] {
        assert_eq!(trim(s), s.trim(), "{s:?}");
    }
}

#[test]
fn lines_match_str() {
    for s in [
        "", "\n", "a", "a\n", "a\nb", "a\r\nb\r\n", "a\r", "\r\n\r\n", "a\n\nb", "a\r\r\nb", "\na",
        "名\n前",
    ] {
        assert_eq!(lines_of(s), s.lines().collect::<Vec<_>>(), "{s:?}");
    }
}

#[test]
fn numbers_match_str() {
    for s in [
        "", "+", "-1", "0", "007", "+5", "++5", "12a", " 1", "1 ", "18446744073709551615",
        "18446744073709551616", "99999999999999999999", "00000000000000000000000001", "１",
    ] {
        assert_eq!(parse_number(s), s.parse::<u64>().ok(), "{s:?}");
    }
    for n in [0, 9, 10, 123, 1777615200, u64::MAX] {
        assert_eq!(decimal_of(n), n.to_string());
        assert_eq!(parse_number(&decimal_of(n)), Some(n));
    }
}

#[test]
fn padding_matches_format() {
    for s in ["", "ab", "名前", "0123456789", "0123456789a"] {
        assert_eq!(pad_right(s, 10), format!("{s:10}"));
        assert_eq!(pad_left(s, 10), format!("{s:>10}"));
    }
}
