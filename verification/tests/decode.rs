use chrono::{TimeDelta, TimeZone, Utc};
use vad_profile::blocks::{
    read_desc_block, read_headers, read_page, read_symbology, read_tabular, DescriptionBlock,
};
use vad_profile::cursor::ByteCursor;
use vad_profile::error::VadError;
use vad_profile::time::VALID_TIME_ORIGIN;
use vad_profile::vad_file::VadFile;

fn header() -> Vec<u8> {
    let mut v = vec![b'H'; 30];
    v.extend_from_slice(&19000i16.to_be_bytes());
    v.extend_from_slice(&48i16.to_be_bytes());
    v.extend_from_slice(&1234i32.to_be_bytes());
    v.extend_from_slice(&5678i32.to_be_bytes());
    v.extend_from_slice(&1i16.to_be_bytes());
    v.extend_from_slice(&2i16.to_be_bytes());
    v.extend_from_slice(&3i16.to_be_bytes());
    v
}

fn desc_tail(scan_date: i16, scan_time: i32, sym: i32, graphic: i32, tab: i32) -> Vec<u8> {
    let mut v = Vec::new();
    for _ in 0..4 {
        v.extend_from_slice(&7i16.to_be_bytes());
    }
    v.extend_from_slice(&scan_date.to_be_bytes());
    v.extend_from_slice(&scan_time.to_be_bytes());
    v.extend_from_slice(&11i16.to_be_bytes());
    v.extend_from_slice(&22i32.to_be_bytes());
    v.extend_from_slice(&[0u8; 54]);
    v.push(1);
    v.push(0);
    v.extend_from_slice(&sym.to_be_bytes());
    v.extend_from_slice(&graphic.to_be_bytes());
    v.extend_from_slice(&tab.to_be_bytes());
    v
}

fn desc_block(
    lat: i32,
    lon: i32,
    code: i16,
    scan_date: i16,
    scan_time: i32,
    sym: i32,
    graphic: i32,
    tab: i32,
) -> Vec<u8> {
    let mut v = Vec::new();
    v.extend_from_slice(&(-1i16).to_be_bytes());
    v.extend_from_slice(&lat.to_be_bytes());
    v.extend_from_slice(&lon.to_be_bytes());
    v.extend_from_slice(&300i16.to_be_bytes());
    v.extend_from_slice(&code.to_be_bytes());
    v.extend(desc_tail(scan_date, scan_time, sym, graphic, tab));
    v
}

fn symbology_block(id: i16, payload_bytes: i32, payload: &[u8]) -> Vec<u8> {
    let mut v = Vec::new();
    v.extend_from_slice(&(-1i16).to_be_bytes());
    v.extend_from_slice(&id.to_be_bytes());
    v.extend_from_slice(&100i32.to_be_bytes());
    v.extend_from_slice(&1i16.to_be_bytes());
    v.extend_from_slice(&(-1i16).to_be_bytes());
    v.extend_from_slice(&payload_bytes.to_be_bytes());
    v.extend_from_slice(payload);
    v
}

fn page_bytes(lines: &[&str]) -> Vec<u8> {
    let mut v = Vec::new();
    for line in lines {
        v.extend_from_slice(&(line.len() as i16).to_be_bytes());
        v.extend_from_slice(line.as_bytes());
    }
    v.extend_from_slice(&(-1i16).to_be_bytes());
    v
}

fn tabular_block(id: i16, num_pages: i16, pages: &[Vec<&str>]) -> Vec<u8> {
    let mut v = Vec::new();
    v.extend_from_slice(&(-1i16).to_be_bytes());
    v.extend_from_slice(&id.to_be_bytes());
    v.extend_from_slice(&999i32.to_be_bytes());
    v.extend_from_slice(&[0xaau8; 30]);
    v.extend_from_slice(&48i16.to_be_bytes());
    v.extend(desc_tail(1, 2, 3, 4, 5));
    v.extend_from_slice(&(-1i16).to_be_bytes());
    v.extend_from_slice(&num_pages.to_be_bytes());
    for p in pages {
        v.extend(page_bytes(p));
    }
    v
}

fn vad_pages() -> Vec<Vec<&'static str>> {
    vec![
        vec!["   some other page", "x"],
        vec![
            "  VAD Algorithm Output  05/01/19 12:00  ",
            "    ALT      U       V       W    DIR   SPD   RMS     DIV     SRNG    ELEV",
            "   100ft    m/s     m/s     cm/s   deg   kts   kts    E-3/s     nm     deg",
            "    007    -1.8     4.2     NA    157    009   1.6     NA    5.67  0.5",
            "    010    -2.0     5.0     NA    158    011   1.2     NA    8.00  0.5",
        ],
    ]
}

fn whole_stream() -> Vec<u8> {
    let mut v = header();
    v.extend(desc_block(35123, -101234, 48, 18000, 3600, 0, 0, 500));
    v.extend(tabular_block(3, 2, &vad_pages()));
    v
}

#[test]
fn header_is_48_bytes_and_only_truncation_fails() {
    let h = header();
    assert_eq!(h.len(), 48);
    let mut cur = ByteCursor::new(&h);
    assert_eq!(read_headers(&mut cur), Ok(()));
    assert_eq!(cur.position(), 48);
    let mut cur = ByteCursor::new(&h[..29]);
    assert_eq!(read_headers(&mut cur), Err(VadError::TruncatedInput { offset: 0, needed: 30 }));
    let mut cur = ByteCursor::new(&h[..37]);
    assert_eq!(read_headers(&mut cur), Err(VadError::TruncatedInput { offset: 34, needed: 4 }));
    assert_eq!(cur.position(), 34);
    let mut cur = ByteCursor::new(&h[..47]);
    assert_eq!(read_headers(&mut cur), Err(VadError::TruncatedInput { offset: 46, needed: 2 }));
}

#[test]
fn description_block_scenario_coordinates_and_time() {
    let bytes = desc_block(35123, -101234, 48, 18000, 3600, 0, 0, 0);
    assert_eq!(bytes.len(), 102);
    let mut cur = ByteCursor::new(&bytes);
    let block = read_desc_block(&mut cur).unwrap();
    assert_eq!(cur.position(), 102);
    assert_eq!(block.latitude, 35123);
    assert_eq!(block.longitude, -101234);
    assert_eq!(block.latitude as f32 / 1000.0, 35.123f32);
    assert_eq!(block.longitude as f32 / 1000.0, -101.234f32);
    assert_eq!(block.valid_time, 1_555_117_200);
    let epoch = Utc.with_ymd_and_hms(1969, 12, 31, 0, 0, 0).unwrap();
    assert_eq!(epoch.timestamp(), VALID_TIME_ORIGIN);
    let expected = epoch + TimeDelta::days(18000) + TimeDelta::seconds(3600);
    assert_eq!(block.valid_time, expected.timestamp());
    assert!(!block.has_tabular());
    assert_eq!(
        block,
        DescriptionBlock {
            latitude: 35123,
            longitude: -101234,
            valid_time: 1_555_117_200,
            symbology_offset: 0,
            graphic_offset: 0,
            tabular_offset: 0,
        }
    );
}

#[test]
fn valid_time_takes_negative_and_extreme_scan_fields() {
    let bytes = desc_block(0, 0, 48, i16::MIN, i32::MIN, 0, 0, 0);
    let mut cur = ByteCursor::new(&bytes);
    let block = read_desc_block(&mut cur).unwrap();
    assert_eq!(block.valid_time, -86_400 + (i16::MIN as i64) * 86_400 + i32::MIN as i64);
    let bytes = desc_block(0, 0, 48, i16::MAX, i32::MAX, 0, 0, 0);
    let mut cur = ByteCursor::new(&bytes);
    let block = read_desc_block(&mut cur).unwrap();
    assert_eq!(block.valid_time, -86_400 + (i16::MAX as i64) * 86_400 + i32::MAX as i64);
    let bytes = desc_block(0, 0, 48, 0, 0, 0, 0, 0);
    let mut cur = ByteCursor::new(&bytes);
    assert_eq!(read_desc_block(&mut cur).unwrap().valid_time, -86_400);
}

#[test]
fn tabular_presence_follows_a_positive_offset() {
    for (tab, present) in [(0, false), (1, true), (500, true), (-1, false), (i32::MIN, false)] {
        let bytes = desc_block(1, 2, 48, 3, 4, 0, 77, tab);
        let mut cur = ByteCursor::new(&bytes);
        let block = read_desc_block(&mut cur).unwrap();
        assert_eq!(block.has_tabular(), present);
        assert_eq!(block.tabular_offset, tab);
        assert_eq!(block.graphic_offset, 77);
    }
}

#[test]
fn wrong_product_code_stops_at_the_code() {
    let mut bytes = desc_block(35123, -101234, 47, 18000, 3600, 60, 0, 500);
    bytes.extend(symbology_block(9, 0, &[]));
    let mut cur = ByteCursor::new(&bytes);
    assert_eq!(
        read_desc_block(&mut cur),
        Err(VadError::ProductCodeMismatch { offset: 12, found: 47 })
    );
    assert_eq!(cur.position(), 14);
    let mut cur = ByteCursor::new(&bytes[..14]);
    assert_eq!(
        read_desc_block(&mut cur),
        Err(VadError::ProductCodeMismatch { offset: 12, found: 47 })
    );
}

#[test]
fn wrong_product_code_fails_the_whole_stream() {
    let mut v = header();
    v.extend(desc_block(35123, -101234, 56, 18000, 3600, 0, 0, 500));
    v.extend(tabular_block(3, 2, &vad_pages()));
    assert_eq!(
        VadFile::from_reader(&v),
        Err(VadError::ProductCodeMismatch { offset: 60, found: 56 })
    );
    assert_eq!(
        VadFile::from_reader(&v[..62]),
        Err(VadError::ProductCodeMismatch { offset: 60, found: 56 })
    );
}

#[test]
fn description_block_truncated_after_the_code() {
    let bytes = desc_block(1, 2, 48, 3, 4, 0, 0, 0);
    let mut cur = ByteCursor::new(&bytes[..101]);
    assert_eq!(read_desc_block(&mut cur), Err(VadError::TruncatedInput { offset: 98, needed: 4 }));
    let mut cur = ByteCursor::new(&bytes[..40]);
    assert_eq!(read_desc_block(&mut cur), Err(VadError::TruncatedInput { offset: 34, needed: 54 }));
    let mut cur = ByteCursor::new(&bytes[..13]);
    assert_eq!(read_desc_block(&mut cur), Err(VadError::TruncatedInput { offset: 12, needed: 2 }));
}

#[test]
fn symbology_block_is_read_inline_and_its_payload_skipped() {
    let mut bytes = desc_block(1, 2, 48, 3, 4, 60, 0, 0);
    bytes.extend(symbology_block(1, 6, &[1, 2, 3, 4, 5, 6]));
    bytes.extend_from_slice(&[0xee, 0xee]);
    let mut cur = ByteCursor::new(&bytes);
    let block = read_desc_block(&mut cur).unwrap();
    assert_eq!(block.symbology_offset, 60);
    assert_eq!(cur.position(), 102 + 16 + 6);
    assert_eq!(cur.remaining(), 2);
}

#[test]
fn negative_symbology_offset_still_announces_a_block() {
    let mut bytes = desc_block(1, 2, 48, 3, 4, -5, 0, 0);
    bytes.extend(symbology_block(1, 0, &[]));
    let mut cur = ByteCursor::new(&bytes);
    assert!(read_desc_block(&mut cur).is_ok());
    assert_eq!(cur.position(), 102 + 16);
}

#[test]
fn symbology_payload_is_counted_in_whole_words() {
    let bytes = symbology_block(1, 5, &[1, 2, 3, 4, 5]);
    let mut cur = ByteCursor::new(&bytes);
    assert_eq!(read_symbology(&mut cur), Ok(()));
    assert_eq!(cur.position(), 16 + 4);
    let bytes = symbology_block(1, 8, &[1, 2, 3, 4, 5]);
    let mut cur = ByteCursor::new(&bytes);
    assert_eq!(read_symbology(&mut cur), Err(VadError::TruncatedInput { offset: 16, needed: 8 }));
}

#[test]
fn symbology_block_with_wrong_id_is_refused() {
    let bytes = symbology_block(2, 0, &[]);
    let mut cur = ByteCursor::new(&bytes);
    assert_eq!(
        read_symbology(&mut cur),
        Err(VadError::SymbologyBlockMismatch { offset: 2, found: 2 })
    );
    assert_eq!(cur.position(), 4);
    let mut bytes = desc_block(1, 2, 48, 3, 4, 60, 0, 0);
    bytes.extend(symbology_block(3, 0, &[]));
    let mut cur = ByteCursor::new(&bytes);
    assert_eq!(
        read_desc_block(&mut cur),
        Err(VadError::SymbologyBlockMismatch { offset: 104, found: 3 })
    );
}

#[test]
fn negative_symbology_payload_count_cannot_be_met() {
    let bytes = symbology_block(1, -4, &[0; 64]);
    let mut cur = ByteCursor::new(&bytes);
    let wanted = 2 * (((-4i32) as usize) / 2);
    assert_eq!(
        read_symbology(&mut cur),
        Err(VadError::TruncatedInput { offset: 16, needed: wanted })
    );
}

#[test]
fn page_lines_end_at_the_sentinel() {
    let bytes = page_bytes(&["abc", "", "de"]);
    let mut cur = ByteCursor::new(&bytes);
    assert_eq!(
        read_page(&mut cur),
        Ok(vec!["abc".to_string(), String::new(), "de".to_string()])
    );
    assert_eq!(cur.position(), bytes.len());
    let bytes = page_bytes(&[]);
    let mut cur = ByteCursor::new(&bytes);
    assert_eq!(read_page(&mut cur), Ok(vec![]));
}

#[test]
fn page_without_sentinel_is_truncated() {
    let bytes = page_bytes(&["abc"]);
    let mut cur = ByteCursor::new(&bytes[..5]);
    assert_eq!(read_page(&mut cur), Err(VadError::TruncatedInput { offset: 5, needed: 2 }));
    let mut cur = ByteCursor::new(&bytes[..4]);
    assert_eq!(read_page(&mut cur), Err(VadError::TruncatedInput { offset: 2, needed: 3 }));
    let mut cur = ByteCursor::new(&bytes[..1]);
    assert_eq!(read_page(&mut cur), Err(VadError::TruncatedInput { offset: 0, needed: 2 }));
}

#[test]
fn negative_line_length_cannot_be_met() {
    let mut bytes = Vec::new();
    bytes.extend_from_slice(&(-2i16).to_be_bytes());
    bytes.extend_from_slice(&[b'x'; 100]);
    let mut cur = ByteCursor::new(&bytes);
    assert_eq!(
        read_page(&mut cur),
        Err(VadError::TruncatedInput { offset: 2, needed: (-2i16) as usize })
    );
}

#[test]
fn tabular_block_gives_pages_of_lines() {
    let bytes = tabular_block(3, 2, &vad_pages());
    let mut cur = ByteCursor::new(&bytes);
    let pages = read_tabular(&mut cur).unwrap();
    assert_eq!(cur.position(), bytes.len());
    assert_eq!(pages.len(), 2);
    assert_eq!(pages[0], vec!["   some other page".to_string(), "x".to_string()]);
    assert_eq!(pages[1].len(), 5);
    assert_eq!(pages[1][3], "    007    -1.8     4.2     NA    157    009   1.6     NA    5.67  0.5");
}

#[test]
fn tabular_block_preamble_is_128_bytes() {
    let bytes = tabular_block(3, 0, &[]);
    assert_eq!(bytes.len(), 4 + 4 + 30 + 2 + 88 + 2 + 2);
    let mut cur = ByteCursor::new(&bytes);
    assert_eq!(read_tabular(&mut cur), Ok(vec![]));
    assert_eq!(cur.position(), 132);
}

#[test]
fn tabular_block_with_wrong_id_is_refused() {
    let bytes = tabular_block(1, 2, &vad_pages());
    let mut cur = ByteCursor::new(&bytes);
    assert_eq!(read_tabular(&mut cur), Err(VadError::TabularBlockMismatch { offset: 2, found: 1 }));
    assert_eq!(cur.position(), 4);
}

#[test]
fn page_count_that_is_not_positive_gives_no_pages() {
    let bytes = tabular_block(3, -3, &vad_pages());
    let mut cur = ByteCursor::new(&bytes);
    assert_eq!(read_tabular(&mut cur), Ok(vec![]));
    assert_eq!(cur.position(), 132);
}

#[test]
fn page_count_beyond_the_stream_is_truncated() {
    let bytes = tabular_block(3, 3, &vad_pages());
    let mut cur = ByteCursor::new(&bytes);
    assert_eq!(
        read_tabular(&mut cur),
        Err(VadError::TruncatedInput { offset: bytes.len(), needed: 2 })
    );
}

#[test]
fn whole_stream_decodes_to_rows_location_and_time() {
    let file = VadFile::from_reader(&whole_stream()).unwrap();
    assert_eq!(file.location, (35123, -101234));
    assert_eq!(file.time, 1_555_117_200);
    assert_eq!(file.data.len(), 2);
    assert_eq!(file.data[0].wind_dir, "157");
    assert_eq!(file.data[0].wind_spd, "009");
    assert_eq!(file.data[0].slant_range, "5.67");
    assert_eq!(file.data[0].elev_angle, "0.5");
    assert_eq!(file.data[1].wind_dir, "158");
    assert_eq!(file.data[1].slant_range, "8.00");
}

#[test]
fn stream_without_tabular_block_has_no_rows() {
    let mut v = header();
    v.extend(desc_block(35123, -101234, 48, 18000, 3600, 0, 0, 0));
    v.extend(tabular_block(3, 2, &vad_pages()));
    let file = VadFile::from_reader(&v).unwrap();
    assert!(file.data.is_empty());
    assert_eq!(file.location, (35123, -101234));
}

#[test]
fn stream_truncated_mid_header_fails_with_truncated_input() {
    let stream = whole_stream();
    assert_eq!(
        VadFile::from_reader(&stream[..20]),
        Err(VadError::TruncatedInput { offset: 0, needed: 30 })
    );
    assert_eq!(
        VadFile::from_reader(&stream[..40]),
        Err(VadError::TruncatedInput { offset: 38, needed: 4 })
    );
    assert_eq!(VadFile::from_reader(&[]), Err(VadError::TruncatedInput { offset: 0, needed: 30 }));
}

#[test]
fn every_proper_prefix_of_a_stream_is_truncated() {
    let stream = whole_stream();
    for n in 0..stream.len() {
        match VadFile::from_reader(&stream[..n]) {
            Err(VadError::TruncatedInput { offset, needed }) => {
                assert!(offset <= n);
                assert!(offset + needed > n);
            }
            other => panic!("prefix of {} bytes gave {:?}", n, other),
        }
    }
}

#[test]
fn graphic_block_is_not_passed_over() {
    let mut v = header();
    v.extend(desc_block(1, 2, 48, 3, 4, 0, 300, 500));
    v.extend_from_slice(&(-1i16).to_be_bytes());
    v.extend_from_slice(&2i16.to_be_bytes());
    v.extend_from_slice(&[0u8; 40]);
    v.extend(tabular_block(3, 2, &vad_pages()));
    assert_eq!(
        VadFile::from_reader(&v),
        Err(VadError::TabularBlockMismatch { offset: 152, found: 2 })
    );
}

#[test]
fn malformed_field_in_a_stream_fails_the_decode() {
    let pages = vec![vec![
        "VAD Algorithm Output",
        "h",
        "h",
        "0 0 0 0 180 20 0 0 10.0 5.0",
        "0 0 0 0 180 NA 0 0 10.0 5.0",
    ]];
    let mut v = header();
    v.extend(desc_block(1, 2, 48, 3, 4, 0, 0, 500));
    v.extend(tabular_block(3, 1, &pages));
    assert_eq!(VadFile::from_reader(&v), Err(VadError::FieldParseError { line: 1, field: 5 }));
}
