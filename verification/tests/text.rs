use script_reloader::text::{decimal_text, is_blank, is_whitespace_char, parse_u16_text, trim_start_char_text, trim_text};

#[test]
fn whitespace_matches_std_for_every_char() {
    for c in (0u32..=0x10ffff).filter_map(char::from_u32) {
        assert_eq!(is_whitespace_char(c), c.is_whitespace(), "char {:?}", c);
    }
}

#[test]
fn trim_matches_std() {
    for s in ["", "  ", " a ", "\u{3000}x\u{85}", "a b", "\t\n\r x y \r\n"] {
        assert_eq!(trim_text(s), s.trim());
        assert_eq!(is_blank(s), s.trim().is_empty());
    }
    assert_eq!(trim_start_char_text("//a/", '/'), "a/");
}

#[test]
fn parse_u16_matches_std() {
    for s in ["", "+", "-", "0", "00022", "+22", "-1", "65535", "65536", "99999999999", "12a", " 1", "+-1", "++1"] {
        assert_eq!(parse_u16_text(s), s.parse::<u16>().ok(), "input {:?}", s);
    }
}

#[test]
fn decimal_matches_to_string() {
    for n in [0u64, 7, 10, 99, 100, 65535, u64::MAX] {
        assert_eq!(decimal_text(n), n.to_string());
    }
}

#[test]
fn signed_decimal_covers_the_whole_range() {
    let mut s = String::new();
    script_reloader::text::push_signed_decimal(&mut s, i64::MIN);
    assert_eq!(s, "-9223372036854775808");
    let mut s = String::from("x");
    script_reloader::text::push_signed_decimal(&mut s, -7);
    script_reloader::text::push_signed_decimal(&mut s, 0);
    assert_eq!(s, "x-70");
}
