use fontapi::editor::{
    fontapi_input_char, fontapi_shrink_script_data_sub_2002F18,
    fontapi_transform_multi_line_script,
};

#[test]
fn input_char_same_bytes_is_unchanged() {
    let mut buf = vec![0x41, 0xD0, 0x10, 0x42, 0xE6, 0x00];
    let before = buf.clone();
    assert!(fontapi_input_char(2, 2, &mut buf, 1, &[0xD0, 0x10], true));
    assert_eq!(buf, before);
}

#[test]
fn input_char_same_width_overwrites() {
    let mut buf = vec![0x41, 0xD0, 0x10, 0x42, 0xE6, 0x00];
    assert!(!fontapi_input_char(2, 2, &mut buf, 1, &[0xD3, 0x22], true));
    assert_eq!(buf, vec![0x41, 0xD3, 0x22, 0x42, 0xE6, 0x00]);
}

#[test]
fn input_char_shrink_then_grow_round_trip() {
    let start = vec![0x41, 0xD0, 0x10, 0x42, 0x43, 0xE6, 0x00, 0x00];
    let mut buf = start.clone();
    assert!(!fontapi_input_char(2, 1, &mut buf, 1, &[0x44], true));
    assert_eq!(buf, vec![0x41, 0x44, 0x42, 0x43, 0xE6, 0xE6, 0x00, 0x00]);
    assert!(!fontapi_input_char(1, 2, &mut buf, 1, &[0xD0, 0x10], true));
    assert_eq!(buf, start);
}

#[test]
fn input_char_inserts_before_rest() {
    let mut buf = vec![0x41, 0x42, 0xE6, 0x00, 0x00, 0x00];
    assert!(!fontapi_input_char(0, 2, &mut buf, 1, &[0xD1, 0x01], false));
    assert_eq!(buf, vec![0x41, 0xD1, 0x01, 0x42, 0xE6, 0x00]);
}

#[test]
fn input_char_grows_at_terminator() {
    let mut buf = vec![0x41, 0xE6, 0x00, 0x00];
    assert!(!fontapi_input_char(0, 1, &mut buf, 1, &[0x42], false));
    assert_eq!(buf, vec![0x41, 0x42, 0xE6, 0x00]);
}

#[test]
fn shrink_copies_and_pads() {
    let src = [0x41, 0xD0, 0x10, 0xE6, 0x99, 0x99];
    let mut dest = vec![0x77; 8];
    fontapi_shrink_script_data_sub_2002F18(&src, &mut dest);
    assert_eq!(dest, vec![0x41, 0xD0, 0x10, 0xE6, 0x00, 0x00, 0x77, 0x77]);
}

#[test]
fn reflow_pads_line_before_break() {
    let src = [0x41, 0xE9, 0x42, 0xE6];
    let mut dest = vec![0xAA; 0x70];
    fontapi_transform_multi_line_script(&mut dest, &src, 4);
    assert_eq!(&dest[..7], &[0x41, 0, 0, 0, 0xE9, 0x42, 0xE6]);
    assert!(dest[7..0x6C].iter().all(|&b| b == 0));
    assert_eq!(&dest[0x6C..], &[0xAA; 4]);
}

#[test]
fn reflow_counts_double_byte_as_one_column() {
    let src = [0xD0, 0x10, 0xE9, 0x42, 0xE9, 0xE6];
    let mut dest = vec![0xAA; 0x6C];
    fontapi_transform_multi_line_script(&mut dest, &src, 3);
    assert_eq!(&dest[..10], &[0xD0, 0x10, 0, 0, 0xE9, 0x42, 0, 0, 0xE9, 0xE6]);
}

#[test]
fn input_char_deletes_character() {
    let mut buf = vec![0x41, 0xD0, 0x10, 0x42, 0xE6, 0x00];
    assert!(!fontapi_input_char(2, 0, &mut buf, 1, &[], true));
    assert_eq!(buf, vec![0x41, 0x42, 0xE6, 0x42, 0xE6, 0x00]);
}
