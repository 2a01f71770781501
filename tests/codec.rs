use fontapi::script::{
    decode_script, decode_script_at, fontapi_get_code_size, fontapi_get_encode_size_by_index,
    fontapi_get_script_bytes_len, fontapi_get_script_chars_len, fontapi_get_script_chars_len_loop,
    INVALID, LINE_BREAK,
};

#[test]
fn decode_single_byte_range() {
    for b0 in 0x00u16..=0xCF {
        for x in [0x00u8, 0x37, 0xFF] {
            assert_eq!(decode_script(&[b0 as u8, x]), (b0, false));
        }
    }
}

#[test]
fn decode_double_byte_range() {
    for b0 in 0xD0u16..=0xE3 {
        for b1 in 0x00u16..=0xFF {
            let expected = (b0 - 0xD0) * 0xE4 + b1 + 0xD0;
            assert_eq!(decode_script(&[b0 as u8, b1 as u8]), (expected, true));
        }
    }
}

#[test]
fn decode_e4_adds_second_byte() {
    for b1 in 0x00u16..=0xFF {
        let expected = ((0xE4u32 + b1 as u32) % 0x1_0000) as u16;
        assert_eq!(decode_script(&[0xE4, b1 as u8]), (expected, true));
    }
    assert_eq!(decode_script(&[0xE4, 0xFF]), (0x1E3, true));
}

#[test]
fn decode_sentinels() {
    assert_eq!(decode_script(&[0xE9, 0x12]), (LINE_BREAK, false));
    assert_eq!(decode_script(&[0xE5, 0x12]), (INVALID, false));
    assert_eq!(decode_script(&[0xFF, 0x12]), (INVALID, false));
    assert_eq!(decode_script(&[0xE6]), (INVALID, false));
    assert_eq!(decode_script(&[0xE9]), (LINE_BREAK, false));
}

#[test]
fn decode_at_position() {
    let buf = [0x41, 0xD1, 0x05, 0xE6];
    assert_eq!(decode_script_at(&buf, 0), (0x41, false));
    assert_eq!(decode_script_at(&buf, 1), (0xE4 + 0x05 + 0xD0, true));
    assert_eq!(decode_script_at(&buf, 3), (INVALID, false));
}

#[test]
fn code_size_table() {
    assert_eq!(fontapi_get_code_size(0x00), 1);
    assert_eq!(fontapi_get_code_size(0xCF), 1);
    assert_eq!(fontapi_get_code_size(0xD0), 2);
    assert_eq!(fontapi_get_code_size(0xE4), 2);
    assert_eq!(fontapi_get_code_size(0xE5), 1);
    assert_eq!(fontapi_get_code_size(0xE9), 1);
    assert_eq!(fontapi_get_code_size(0xFF), 1);
}

#[test]
fn lengths_of_one_double_glyph() {
    let buf = [0xD0, 0x10, 0xE6];
    assert_eq!(fontapi_get_script_bytes_len(&buf), 2);
    assert_eq!(fontapi_get_script_chars_len(&buf), 1);
    assert_eq!(fontapi_get_script_chars_len_loop(&buf), 1);
}

#[test]
fn lengths_of_empty_script() {
    assert_eq!(fontapi_get_script_bytes_len(&[0xE6, 0x41]), 0);
    assert_eq!(fontapi_get_script_chars_len(&[0xE6, 0x41]), 0);
    assert_eq!(fontapi_get_script_bytes_len(&[]), 0);
}

#[test]
fn lengths_with_line_break() {
    let buf = [0x41, 0xE9, 0xE4, 0x01, 0x42, 0xE6, 0x43];
    assert_eq!(fontapi_get_script_bytes_len(&buf), 5);
    assert_eq!(fontapi_get_script_chars_len(&buf), 4);
}

#[test]
fn scan_stops_at_invalid_byte() {
    let buf = [0x41, 0xF0, 0x42, 0xE6];
    assert_eq!(fontapi_get_script_bytes_len(&buf), 1);
    assert_eq!(fontapi_get_script_chars_len(&buf), 1);
}

#[test]
fn scan_without_terminator_stops_at_end() {
    assert_eq!(fontapi_get_script_bytes_len(&[0x41, 0x42]), 2);
    assert_eq!(fontapi_get_script_bytes_len(&[0x41, 0xD0]), 1);
    assert_eq!(fontapi_get_script_chars_len(&[0x41, 0xD0]), 1);
}

#[test]
fn encode_size_by_index() {
    let buf = [0x41, 0xD0, 0x10, 0x42, 0xE6];
    assert_eq!(fontapi_get_encode_size_by_index(&buf, 0), (0, 1));
    assert_eq!(fontapi_get_encode_size_by_index(&buf, 1), (1, 2));
    assert_eq!(fontapi_get_encode_size_by_index(&buf, 2), (3, 1));
    assert_eq!(fontapi_get_encode_size_by_index(&buf, 3), (4, 1));
}
