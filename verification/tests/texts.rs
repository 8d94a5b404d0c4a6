use lore_core::numerals::{parse_unsigned, write_hex_code, write_positional};
use lore_core::text::{
    prefix_of_bytes, same_text, split_lines, split_tokens, text_after, trim_text,
};
use lore_core::wide::{decode_utf16_lossy, encode_utf16, wcslen};

#[test]
fn lines_end_at_line_feeds() {
    for text in ["", "a", "a\n", "a\r\nb", "\n\n", "a\rb\n", "\r\n", "a\n\r"] {
        let expected: Vec<&str> = text.lines().collect();
        assert_eq!(split_lines(text), expected, "{text:?}");
    }
}

#[test]
fn tokens_stand_between_white_space() {
    for text in ["", " ", "a", " a  b\t", "a\u{a0}b", "a\u{3000}b\u{85}c", "x\u{200b}y"] {
        let expected: Vec<&str> = text.split_whitespace().collect();
        assert_eq!(split_tokens(text), expected, "{text:?}");
        assert_eq!(trim_text(text), text.trim(), "{text:?}");
    }
}

#[test]
fn text_after_a_separator() {
    assert_eq!(text_after("a:b:c", ':'), Some("b:c".to_string()));
    assert_eq!(text_after("abc", ':'), None);
    assert_eq!(text_after("abc:", ':'), Some(String::new()));
    assert!(same_text("é", "é"));
    assert!(!same_text("é", "e"));
}

#[test]
fn prefixes_by_bytes() {
    let text = "aé€😀z";
    for n in 0..=text.len() + 1 {
        assert_eq!(
            prefix_of_bytes(text, n),
            text.get(..n).map(str::to_string),
            "{n}"
        );
    }
}

#[test]
fn numbers_are_read_and_written() {
    for text in ["0", "007", "+5", "", "+", "-1", "1 ", "18446744073709551615", "18446744073709551616"] {
        assert_eq!(parse_unsigned(text), text.parse::<u64>().ok(), "{text:?}");
    }
    assert_eq!(write_positional(0, 10), "0");
    assert_eq!(write_positional(u64::MAX, 10), "18446744073709551615");
    assert_eq!(write_positional(255, 16), "ff");
    for code in [0u32, 5, 0x80070002, u32::MAX] {
        assert_eq!(write_hex_code(code), format!("{code:#08x}"));
    }
}

#[test]
fn wide_text_goes_there_and_back() {
    for text in ["", "abc", "aé€😀z"] {
        let wide: Vec<u16> = text.encode_utf16().collect();
        assert_eq!(encode_utf16(text), wide);
        assert_eq!(decode_utf16_lossy(&wide), text);
    }
    for wide in [
        vec![0xd800u16],
        vec![0xdc00, 0x41],
        vec![0xd83d, 0xde00, 0xd83d],
        vec![0xd83d, 0xd83d, 0xde00],
    ] {
        assert_eq!(decode_utf16_lossy(&wide), String::from_utf16_lossy(&wide));
    }
}

#[test]
fn wide_strings_end_at_zero() {
    assert_eq!(wcslen(None), 0);
    assert_eq!(wcslen(Some(&[0])), 0);
    assert_eq!(wcslen(Some(&[65, 66, 0, 67, 0])), 2);
}
