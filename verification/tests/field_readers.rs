use source_query::error::SourceQueryError;
use source_query::parse::{get_string, get_u16, get_u64, get_u8};

#[test]
fn u8_is_read_and_cursor_moves_one() {
    let data = [0x11u8, 0x22, 0x33];
    let mut offset = 1usize;
    assert_eq!(get_u8(&data, &mut offset), Ok(0x22));
    assert_eq!(offset, 2);
    assert_eq!(get_u8(&data, &mut offset), Ok(0x33));
    assert_eq!(offset, 3);
}

#[test]
fn u8_past_the_end_is_malformed() {
    let data = [0x11u8];
    let mut offset = 1usize;
    assert_eq!(get_u8(&data, &mut offset), Err(SourceQueryError::MalformedPacketBody));
    assert_eq!(offset, 1);
    let mut far = 40usize;
    assert_eq!(get_u8(&data, &mut far), Err(SourceQueryError::MalformedPacketBody));
    assert_eq!(far, 40);
    let mut start = 0usize;
    assert_eq!(get_u8(&[], &mut start), Err(SourceQueryError::MalformedPacketBody));
    assert_eq!(start, 0);
}

#[test]
fn u16_is_little_endian() {
    let data = [0x00u8, 0x87, 0x69, 0xAA];
    let mut offset = 1usize;
    assert_eq!(get_u16(&data, &mut offset), Ok(0x6987));
    assert_eq!(offset, 3);
    offset = 1;
    assert_eq!(get_u16(&data, &mut offset), Ok(27015));
}

#[test]
fn u16_extremes() {
    let mut offset = 0usize;
    assert_eq!(get_u16(&[0xFF, 0xFF], &mut offset), Ok(u16::MAX));
    offset = 0;
    assert_eq!(get_u16(&[0x00, 0x00], &mut offset), Ok(0));
    offset = 0;
    assert_eq!(get_u16(&[0x01, 0x00], &mut offset), Ok(1));
    offset = 0;
    assert_eq!(get_u16(&[0x00, 0x01], &mut offset), Ok(256));
}

#[test]
fn u16_with_one_byte_left_is_malformed() {
    let data = [0x01u8, 0x02, 0x03];
    let mut offset = 2usize;
    assert_eq!(get_u16(&data, &mut offset), Err(SourceQueryError::MalformedPacketBody));
    assert_eq!(offset, 2);
    offset = 3;
    assert_eq!(get_u16(&data, &mut offset), Err(SourceQueryError::MalformedPacketBody));
    assert_eq!(offset, 3);
    offset = usize::MAX;
    assert_eq!(get_u16(&data, &mut offset), Err(SourceQueryError::MalformedPacketBody));
    assert_eq!(offset, usize::MAX);
}

#[test]
fn u64_is_little_endian() {
    let data = [0xEEu8, 0x08, 0x07, 0x06, 0x05, 0x04, 0x03, 0x02, 0x01];
    let mut offset = 1usize;
    assert_eq!(get_u64(&data, &mut offset), Ok(0x0102_0304_0506_0708));
    assert_eq!(offset, 9);
}

#[test]
fn u64_extremes() {
    let mut offset = 0usize;
    assert_eq!(get_u64(&[0xFF; 8], &mut offset), Ok(u64::MAX));
    offset = 0;
    assert_eq!(get_u64(&[0, 0, 0, 0, 0, 0, 0, 0x80], &mut offset), Ok(1u64 << 63));
    offset = 0;
    assert_eq!(get_u64(&[0, 0, 0, 0, 1, 0, 0, 0], &mut offset), Ok(1u64 << 32));
    offset = 0;
    let steam_id = 90_071_996_842_377_216u64;
    assert_eq!(get_u64(&steam_id.to_le_bytes(), &mut offset), Ok(steam_id));
}

#[test]
fn u64_with_seven_bytes_left_is_malformed() {
    let data = [0u8; 8];
    let mut offset = 1usize;
    assert_eq!(get_u64(&data, &mut offset), Err(SourceQueryError::MalformedPacketBody));
    assert_eq!(offset, 1);
    offset = 8;
    assert_eq!(get_u64(&data, &mut offset), Err(SourceQueryError::MalformedPacketBody));
    offset = 9;
    assert_eq!(get_u64(&data, &mut offset), Err(SourceQueryError::MalformedPacketBody));
    assert_eq!(offset, 9);
}

#[test]
fn string_ends_at_the_first_zero() {
    let data = b"xxhello\0world\0";
    let mut offset = 2usize;
    assert_eq!(get_string(data, &mut offset), Ok("hello".to_string()));
    assert_eq!(offset, 8);
    assert_eq!(get_string(data, &mut offset), Ok("world".to_string()));
    assert_eq!(offset, 14);
}

#[test]
fn empty_string_takes_one_byte() {
    let data = [0u8, 0, 0x41, 0];
    let mut offset = 0usize;
    assert_eq!(get_string(&data, &mut offset), Ok(String::new()));
    assert_eq!(offset, 1);
    assert_eq!(get_string(&data, &mut offset), Ok(String::new()));
    assert_eq!(offset, 2);
    assert_eq!(get_string(&data, &mut offset), Ok("A".to_string()));
    assert_eq!(offset, 4);
}

#[test]
fn string_keeps_non_ascii_text() {
    let text = "Caf\u{e9} \u{2603} \u{1F600} server";
    let mut data: Vec<u8> = vec![9];
    data.extend_from_slice(text.as_bytes());
    data.push(0);
    data.push(7);
    let mut offset = 1usize;
    let read = get_string(&data, &mut offset).unwrap();
    assert_eq!(read, text);
    assert_eq!(read.as_bytes(), &data[1..1 + text.len()]);
    assert_eq!(offset, 1 + text.len() + 1);
    assert_eq!(get_u8(&data, &mut offset), Ok(7));
}

#[test]
fn unterminated_string_is_malformed() {
    let data = b"abc";
    let mut offset = 0usize;
    assert_eq!(get_string(data, &mut offset), Err(SourceQueryError::MalformedPacketBody));
    assert_eq!(offset, 0);
    offset = 3;
    assert_eq!(get_string(data, &mut offset), Err(SourceQueryError::MalformedPacketBody));
    assert_eq!(offset, 3);
    offset = 100;
    assert_eq!(get_string(data, &mut offset), Err(SourceQueryError::MalformedPacketBody));
    assert_eq!(offset, 100);
    offset = 0;
    assert_eq!(get_string(&[], &mut offset), Err(SourceQueryError::MalformedPacketBody));
}

#[test]
fn string_that_is_not_utf8_is_malformed() {
    let data = [0x41u8, 0xFF, 0x42, 0x00, 0x43];
    let mut offset = 0usize;
    assert_eq!(get_string(&data, &mut offset), Err(SourceQueryError::MalformedPacketBody));
    assert_eq!(offset, 4);
    // a lone continuation byte, an overlong slash, a surrogate, a cut-off sequence
    for bad in [vec![0x80u8, 0], vec![0xC0, 0xAF, 0], vec![0xED, 0xA0, 0x80, 0], vec![0xE2, 0x98, 0]] {
        let mut at = 0usize;
        assert_eq!(get_string(&bad, &mut at), Err(SourceQueryError::MalformedPacketBody));
        assert_eq!(at, bad.len());
    }
}

#[test]
fn reads_follow_one_another() {
    let mut data: Vec<u8> = Vec::new();
    data.push(17);
    data.extend_from_slice(b"name\0");
    data.extend_from_slice(&440u16.to_le_bytes());
    data.extend_from_slice(&0x1122_3344_5566_7788u64.to_le_bytes());
    data.extend_from_slice(b"end\0");
    let mut offset = 0usize;
    assert_eq!(get_u8(&data, &mut offset), Ok(17));
    assert_eq!(get_string(&data, &mut offset), Ok("name".to_string()));
    assert_eq!(get_u16(&data, &mut offset), Ok(440));
    assert_eq!(get_u64(&data, &mut offset), Ok(0x1122_3344_5566_7788));
    assert_eq!(get_string(&data, &mut offset), Ok("end".to_string()));
    assert_eq!(offset, data.len());
    assert_eq!(get_u8(&data, &mut offset), Err(SourceQueryError::MalformedPacketBody));
}
