use vad_profile::cursor::ByteCursor;
use vad_profile::error::VadError;

#[test]
fn reads_big_endian_scalars() {
    let data = [0x12u8, 0x34, 0xff, 0xfe, 0x80, 0x00, 0x00, 0x01, 0x7f, 0x80];
    let mut cur = ByteCursor::new(&data);
    assert_eq!(cur.read_i16(), Ok(0x1234));
    assert_eq!(cur.read_i16(), Ok(-2));
    assert_eq!(cur.read_i32(), Ok(i32::MIN + 1));
    assert_eq!(cur.read_u8(), Ok(0x7f));
    assert_eq!(cur.read_i8(), Ok(-128));
    assert_eq!(cur.position(), 10);
    assert_eq!(cur.remaining(), 0);
}

#[test]
fn scalars_agree_with_from_be_bytes() {
    let samples: [[u8; 4]; 6] = [
        [0, 0, 0, 0],
        [0xff, 0xff, 0xff, 0xff],
        [0x7f, 0xff, 0xff, 0xff],
        [0x80, 0x00, 0x00, 0x00],
        [0x00, 0x00, 0x89, 0x33],
        [0xff, 0xfe, 0x74, 0x8e],
    ];
    for s in samples {
        let mut cur = ByteCursor::new(&s);
        assert_eq!(cur.read_i32(), Ok(i32::from_be_bytes(s)));
        let mut cur = ByteCursor::new(&s);
        assert_eq!(cur.read_i16(), Ok(i16::from_be_bytes([s[0], s[1]])));
        assert_eq!(cur.read_i16(), Ok(i16::from_be_bytes([s[2], s[3]])));
    }
}

#[test]
fn short_read_reports_offset_and_size() {
    let data = [1u8, 2, 3];
    let mut cur = ByteCursor::new(&data);
    assert_eq!(cur.read_i16(), Ok(0x0102));
    assert_eq!(cur.read_i16(), Err(VadError::TruncatedInput { offset: 2, needed: 2 }));
    assert_eq!(cur.position(), 2);
    assert_eq!(cur.read_i32(), Err(VadError::TruncatedInput { offset: 2, needed: 4 }));
    assert_eq!(cur.read_u8(), Ok(3));
    assert_eq!(cur.read_u8(), Err(VadError::TruncatedInput { offset: 3, needed: 1 }));
    assert_eq!(cur.read_i8(), Err(VadError::TruncatedInput { offset: 3, needed: 1 }));
}

#[test]
fn skip_moves_or_fails_without_moving() {
    let data = [0u8; 8];
    let mut cur = ByteCursor::new(&data);
    assert_eq!(cur.skip(5), Ok(()));
    assert_eq!(cur.position(), 5);
    assert_eq!(cur.skip(4), Err(VadError::TruncatedInput { offset: 5, needed: 4 }));
    assert_eq!(cur.position(), 5);
    assert_eq!(cur.skip(usize::MAX), Err(VadError::TruncatedInput { offset: 5, needed: usize::MAX }));
    assert_eq!(cur.skip(3), Ok(()));
    assert_eq!(cur.skip(0), Ok(()));
    assert_eq!(cur.remaining(), 0);
}

#[test]
fn read_bytes_copies_exactly() {
    let data = [9u8, 8, 7, 6, 5];
    let mut cur = ByteCursor::new(&data);
    assert_eq!(cur.read_bytes(0), Ok(vec![]));
    assert_eq!(cur.read_bytes(2), Ok(vec![9, 8]));
    assert_eq!(cur.read_bytes(4), Err(VadError::TruncatedInput { offset: 2, needed: 4 }));
    assert_eq!(cur.read_bytes(3), Ok(vec![7, 6, 5]));
}

#[test]
fn read_i16_array_reads_words_in_order() {
    let data = [0x00u8, 0x01, 0xff, 0xff, 0x80, 0x00, 0x7f];
    let mut cur = ByteCursor::new(&data);
    assert_eq!(cur.read_i16_array(3), Ok(vec![1, -1, i16::MIN]));
    assert_eq!(cur.position(), 6);
    assert_eq!(cur.read_i16_array(1), Err(VadError::TruncatedInput { offset: 6, needed: 2 }));
    assert_eq!(cur.read_i16_array(0), Ok(vec![]));
}

#[test]
fn read_string_maps_each_byte_to_its_code_point() {
    let data = [b'V', b'A', b'D', 0xe9, 0x00, 0xff, b' '];
    let mut cur = ByteCursor::new(&data);
    let s = cur.read_string(6).unwrap();
    let expected: String = ['V', 'A', 'D', '\u{e9}', '\u{0}', '\u{ff}'].iter().collect();
    assert_eq!(s, expected);
    assert_eq!(s.chars().count(), 6);
    assert_eq!(cur.read_string(2), Err(VadError::TruncatedInput { offset: 6, needed: 2 }));
    assert_eq!(cur.read_string(1), Ok(" ".to_string()));
    assert_eq!(cur.read_string(0), Ok(String::new()));
}
