use wowedit::chunks::ChunkHeader;
use wowedit::error::FormatError;
use wowedit::io::{
    read_f32, read_f32_at, read_nullterm_string, read_nullterm_strings_at, read_u16, read_u32,
    read_u32_at, read_u8, Cursor,
};

#[test]
fn reads_little_endian_integers_in_order() {
    let data = [0x01u8, 0x02, 0x03, 0x04, 0x05, 0x06, 0x07];
    let mut r = Cursor::new(&data);
    assert_eq!(read_u8(&mut r), Ok(0x01));
    assert_eq!(read_u16(&mut r), Ok(0x0302));
    assert_eq!(read_u32(&mut r), Ok(0x0706_0504));
    assert_eq!(r.position(), 7);
    assert_eq!(read_u8(&mut r), Err(FormatError::UnexpectedEof));
}

#[test]
fn short_reads_fail_at_the_end_of_the_data() {
    let data = [0xAAu8, 0xBB, 0xCC];
    let mut r = Cursor::new(&data);
    assert_eq!(read_u16(&mut r), Ok(0xBBAA));
    assert_eq!(read_u16(&mut r), Err(FormatError::UnexpectedEof));
    assert_eq!(r.position(), 3);
    r.seek(1);
    assert_eq!(read_u32(&mut r), Err(FormatError::UnexpectedEof));
    assert_eq!(r.position(), 3);
    r.seek(10);
    assert_eq!(read_u8(&mut r), Err(FormatError::UnexpectedEof));
    assert_eq!(r.position(), 3);
    assert_eq!(read_u32_at(&mut r, 2), Err(FormatError::UnexpectedEof));
    assert_eq!(r.position(), 3);
    let mut r = Cursor::new(&data);
    assert!(matches!(ChunkHeader::read(&mut r), Err(FormatError::UnexpectedEof)));
    assert_eq!(r.position(), 3);
}

#[test]
fn floats_come_back_as_their_bits() {
    let mut data = Vec::new();
    data.extend_from_slice(&1.5f32.to_le_bytes());
    data.extend_from_slice(&(-250.25f32).to_le_bytes());
    let mut r = Cursor::new(&data);
    assert_eq!(read_f32(&mut r), Ok(1.5f32.to_bits()));
    assert_eq!(f32::from_bits(read_f32(&mut r).unwrap()), -250.25);
    assert_eq!(read_f32_at(&mut r, 0), Ok(1.5f32.to_bits()));
}

#[test]
fn reads_at_an_offset_and_past_the_end() {
    let data = [0u8, 0, 0x78, 0x56, 0x34, 0x12];
    let mut r = Cursor::new(&data);
    assert_eq!(read_u32_at(&mut r, 2), Ok(0x1234_5678));
    assert_eq!(read_u32_at(&mut r, 3), Err(FormatError::UnexpectedEof));
    assert_eq!(read_u32_at(&mut r, 1000), Err(FormatError::UnexpectedEof));
}

#[test]
fn null_terminated_strings_drop_the_terminator() {
    let data = b"abc\0def";
    let mut r = Cursor::new(data);
    assert_eq!(read_nullterm_string(&mut r).unwrap(), "abc");
    assert_eq!(r.position(), 4);
    assert_eq!(read_nullterm_string(&mut r).unwrap(), "def");
    assert_eq!(r.position(), 7);
    assert_eq!(read_nullterm_string(&mut r).unwrap(), "");
    assert_eq!(r.position(), 7);
}

#[test]
fn valid_utf8_comes_back_unchanged() {
    let data = "caf\u{e9}\u{20ac}\u{1f600}\0x".as_bytes().to_vec();
    let mut r = Cursor::new(&data);
    assert_eq!(read_nullterm_string(&mut r).unwrap(), "caf\u{e9}\u{20ac}\u{1f600}");
    assert_eq!(r.position(), 13);
}

#[test]
fn string_lists_stop_at_the_first_empty_name() {
    let data = *b"a\0bc\0\0d\0";
    let mut r = Cursor::new(&data[..]);
    assert_eq!(read_nullterm_strings_at(&mut r, 0).unwrap(), vec!["a".to_string(), "bc".to_string()]);
    let h = ChunkHeader { magic: *b"KNCM", size: 0 };
    assert_eq!(h.magic_str(), "MCNK");
}

#[test]
fn invalid_utf8_is_replaced() {
    let data = [0x66u8, 0xFF, 0x00, 0x67];
    let mut r = Cursor::new(&data);
    assert_eq!(read_nullterm_string(&mut r).unwrap(), "f\u{FFFD}");
}

#[test]
fn string_lists_end_at_an_empty_string() {
    let data = b"a.blp\0b.blp\0\0c.blp\0";
    let mut r = Cursor::new(data);
    let names = read_nullterm_strings_at(&mut r, 0).unwrap();
    assert_eq!(names, vec!["a.blp".to_string(), "b.blp".to_string()]);
    let mut r = Cursor::new(data);
    let names = read_nullterm_strings_at(&mut r, 13).unwrap();
    assert_eq!(names, vec!["c.blp".to_string()]);
}

#[test]
fn string_lists_end_at_the_data_end() {
    let data = b"x\0yz";
    let mut r = Cursor::new(data);
    let names = read_nullterm_strings_at(&mut r, 0).unwrap();
    assert_eq!(names, vec!["x".to_string(), "yz".to_string()]);
    let mut r = Cursor::new(data);
    assert!(read_nullterm_strings_at(&mut r, 10).unwrap().is_empty());
}

#[test]
fn chunk_headers_read_tag_and_size() {
    let data = [b'R', b'E', b'V', b'M', 0x12, 0, 0, 0, 0xFF];
    let mut r = Cursor::new(&data);
    let h = ChunkHeader::read(&mut r).unwrap();
    assert_eq!(&h.magic, b"REVM");
    assert_eq!(h.size, 18);
    assert_eq!(h.magic_str(), "MVER");
    assert_eq!(r.position(), 8);
    assert!(matches!(ChunkHeader::read(&mut r), Err(FormatError::UnexpectedEof)));
    assert_eq!(r.position(), 9);
}
