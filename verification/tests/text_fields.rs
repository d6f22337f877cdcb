use fofdata::text::{FixedString, LengthInches, Date};
use fofdata::error::Fof9Error;

fn put_u32(out: &mut Vec<u8>, v: u32) {
    out.extend_from_slice(&v.to_le_bytes());
}

fn put_str(out: &mut Vec<u8>, s: &str) {
    put_u32(out, s.len() as u32);
    out.extend_from_slice(s.as_bytes());
}

#[test]
fn text_round_trip_ascii() {
    let mut bytes: Vec<u8> = Vec::new();
    put_str(&mut bytes, "abc");
    let (fs, end) = FixedString::decode(&bytes, 0).expect("text field should decode");
    assert_eq!(end, 7);
    assert_eq!(fs.string, "abc");
    let mut out: Vec<u8> = Vec::new();
    fs.encode(&mut out);
    assert_eq!(out, bytes);
}

#[test]
fn text_round_trip_empty() {
    let bytes: Vec<u8> = vec![0, 0, 0, 0];
    let (fs, end) = FixedString::decode(&bytes, 0).expect("empty text field should decode");
    assert_eq!(end, 4);
    assert_eq!(fs.string, "");
    let mut out: Vec<u8> = Vec::new();
    fs.encode(&mut out);
    assert_eq!(out, bytes);
}

#[test]
fn text_decodes_high_bytes_as_latin1() {
    // 0xE9 is a single byte on disk but a two-byte UTF-8 character in the
    // decoded string: the decoder is not the identity on bytes.
    let bytes: Vec<u8> = vec![4, 0, 0, 0, 99, 97, 102, 0xE9];
    let (fs, end) = FixedString::decode(&bytes, 0).expect("text field should decode");
    assert_eq!(end, 8);
    assert_eq!(fs.string, "caf\u{e9}");
    assert_eq!(fs.string.len(), 5);
    let mut out: Vec<u8> = Vec::new();
    fs.encode(&mut out);
    assert_eq!(out, bytes);
}

#[test]
fn text_truncated_content_fails() {
    let bytes: Vec<u8> = vec![5, 0, 0, 0, 1, 2];
    let err = FixedString::decode(&bytes, 0).expect_err("short content must fail");
    assert!(matches!(err, Fof9Error::TruncatedInput { .. }));
}

#[test]
fn text_truncated_prefix_fails() {
    let bytes: Vec<u8> = vec![5, 0];
    let err = FixedString::decode(&bytes, 0).expect_err("short prefix must fail");
    assert_eq!(err, Fof9Error::TruncatedInput { pos: 0 });
}

#[test]
fn length_inches_parts() {
    let mut bytes: Vec<u8> = Vec::new();
    put_u32(&mut bytes, 1234);
    let (len, end) = LengthInches::decode(&bytes, 0).expect("length should decode");
    assert_eq!(end, 4);
    assert_eq!(len.eighths(), 4);
    assert_eq!(len.inches(), 3);
    assert_eq!(len.feet(), 10);
}

#[test]
fn date_fields() {
    let mut bytes: Vec<u8> = Vec::new();
    put_u32(&mut bytes, 2023);
    put_u32(&mut bytes, 9);
    put_u32(&mut bytes, 17);
    let (d, end) = Date::decode(&bytes, 0).expect("date should decode");
    assert_eq!(end, 12);
    assert_eq!(d.year, 2023);
    assert_eq!(d.month, 9);
    assert_eq!(d.day, 17);
}

#[test]
fn length_display_forms() {
    let tall = LengthInches { inches_eighths: 1234 };
    assert_eq!(tall.display_string(), "10' 3 4/8\"");
    let tiny = LengthInches { inches_eighths: 4 };
    assert_eq!(tiny.display_string(), " 4/8\"");
    let whole_feet = LengthInches { inches_eighths: 720 };
    assert_eq!(whole_feet.display_string(), "6'");
    let zero = LengthInches { inches_eighths: 0 };
    assert_eq!(zero.display_string(), "");
}

#[test]
fn little_endian_word_order() {
    let bytes: Vec<u8> = vec![0x78, 0x56, 0x34, 0x12];
    let (v, end) = fofdata::bytes::read_u32(&bytes, 0).expect("word should decode");
    assert_eq!(end, 4);
    assert_eq!(v, 0x12345678);
    let mut out: Vec<u8> = Vec::new();
    fofdata::bytes::push_u32(&mut out, 0x12345678);
    assert_eq!(out, bytes);
}

#[test]
fn signed_word_two_complement() {
    let bytes: Vec<u8> = vec![0xFF, 0xFF, 0xFF, 0xFF];
    let (v, _) = fofdata::bytes::read_i32(&bytes, 0).expect("word should decode");
    assert_eq!(v, -1);
    let short: Vec<u8> = vec![1, 2];
    let err = fofdata::bytes::read_u32(&short, 0).expect_err("short word must fail");
    assert_eq!(err, Fof9Error::TruncatedInput { pos: 0 });
    assert_eq!(err.offset(), 0);
}
