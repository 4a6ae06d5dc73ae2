use a_fast_clipboard::number::{
    hex_text, parse_i64, parse_u32, parse_unsigned_chars, signed_text, unsigned_text,
};
use a_fast_clipboard::text::{
    flatten_white_space, is_ascii_alphanumeric, is_white_space, join, same_text, split_text,
    strip_text, to_lower_char, to_upper_char, trim, Strip,
};

#[test]
fn numbers_are_written_and_read() {
    for n in [0, 7, -1, 10, 123_456, i64::MAX, i64::MIN] {
        assert_eq!(signed_text(n), n.to_string());
        assert_eq!(parse_i64(&signed_text(n)), Some(n));
    }
    assert_eq!(unsigned_text(u64::MAX), "18446744073709551615");
    for n in [0, 1, 65_536, u32::MAX] {
        assert_eq!(parse_u32(&unsigned_text(n as u64)), Some(n));
    }
}

#[test]
fn numbers_are_read_as_the_standard_library_does() {
    for text in [
        "", "+", "-", "+5", "-5", "--5", "007", " 5", "5 ", "9223372036854775807",
        "9223372036854775808", "-9223372036854775808", "-9223372036854775809", "1_0", "0x1",
    ] {
        assert_eq!(parse_i64(text), text.parse::<i64>().ok(), "{text}");
        assert_eq!(parse_u32(text), text.parse::<u32>().ok(), "{text}");
    }
    assert_eq!(parse_unsigned_chars(&vec!['f', 'F'], 16, 1000), Some(255));
    assert_eq!(parse_unsigned_chars(&vec!['g'], 16, 1000), None);
}

#[test]
fn bytes_in_hexadecimal() {
    assert_eq!(hex_text(&vec![0, 15, 160, 255]), "000fa0ff");
}

#[test]
fn characters_are_told_apart_as_the_standard_library_does() {
    for c in '\0'..=char::MAX {
        assert_eq!(is_white_space(c), c.is_whitespace());
        assert_eq!(is_ascii_alphanumeric(c), c.is_ascii_alphanumeric());
        assert_eq!(to_lower_char(c), c.to_ascii_lowercase());
        assert_eq!(to_upper_char(c), c.to_ascii_uppercase());
    }
}

#[test]
fn texts_are_cut_up_as_the_standard_library_does() {
    for text in ["", " ", "a", " a", "a ", "a b", "\u{3000}a\u{85}b\u{b}", "x\ty\r\n z "] {
        assert_eq!(trim(text), text.trim());
        let words: Vec<&str> = text.split_whitespace().collect();
        assert_eq!(flatten_white_space(text), words.join(" "));
        let pieces: Vec<Vec<char>> = text.split(' ').map(|p| p.chars().collect()).collect();
        assert_eq!(split_text(text, ' '), pieces);
    }
}

#[test]
fn trimming_takes_white_space() {
    assert_eq!(trim(" \t\u{a0}a b\u{2003}\n"), "a b");
    assert_eq!(trim(" \r\n"), "");
    assert_eq!(strip_text("xxaxbxx", Strip::Only('x')), "axb");
}

#[test]
fn splitting_and_joining() {
    let pieces = split_text("a++b", '+');
    assert_eq!(pieces, vec![vec!['a'], vec![], vec!['b']]);
    assert_eq!(join(&vec!["a".to_string(), "b".to_string()], ", "), "a, b");
    assert_eq!(join(&vec![], ", "), "");
    assert_eq!(flatten_white_space("  a\n\n b\tc "), "a b c");
    assert!(same_text("é", "é"));
    assert!(!same_text("a", "ab"));
}
