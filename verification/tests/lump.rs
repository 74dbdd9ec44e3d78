use viletech::lump::{read_i16, read_id8, read_u16};
use viletech::text::{str_eq_ic, to_chars};

#[test]
fn names_stop_at_the_first_nul() {
    assert_eq!(read_id8(*b"STARTAN3"), Some("STARTAN3".to_string()));
    assert_eq!(read_id8(*b"DOOR\0XYZ"), Some("DOOR".to_string()));
    assert_eq!(read_id8(*b"\0ABCDEFG"), None);
    assert_eq!(read_id8([0xE9, b'A', 0, 0, 0, 0, 0, 0]), Some("\u{e9}A".to_string()));
}

#[test]
fn little_endian_fields() {
    let b = [0x34, 0x12, 0xFE, 0xFF];
    assert_eq!(read_u16(&b, 0), 0x1234);
    assert_eq!(read_i16(&b, 2), -2);
    assert_eq!(read_u16(&b, 2), 0xFFFE);
}

#[test]
fn text_helpers() {
    assert_eq!(to_chars("añb"), vec!['a', 'ñ', 'b']);
    assert!(str_eq_ic("NoSave", "nosave"));
    assert!(!str_eq_ic("nosave", "nosav"));
    assert!(!str_eq_ic("ÄB", "äb"));
}
