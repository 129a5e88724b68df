use v5sim::mem::{decode_serial_output, read_bytes, read_c_string, GuestMemError};

#[test]
fn read_c_string_decodes_up_to_nul() {
    let mem = [b'h', b'i', 0, b'x'];
    assert_eq!(read_c_string(&mem, 0), Some(String::from("hi")));
}

#[test]
fn read_c_string_from_offset() {
    let mem = [b'h', b'i', 0, b'x', b'y', 0];
    assert_eq!(read_c_string(&mem, 3), Some(String::from("xy")));
}

#[test]
fn read_c_string_empty() {
    let mem = [0u8];
    assert_eq!(read_c_string(&mem, 0), Some(String::from("")));
}

#[test]
fn read_c_string_without_nul_fails() {
    let mem = [b'h', b'i'];
    assert_eq!(read_c_string(&mem, 0), None);
}

#[test]
fn read_c_string_invalid_utf8_fails() {
    let mem = [0xff, 0xfe, 0];
    assert_eq!(read_c_string(&mem, 0), None);
}

#[test]
fn read_c_string_past_end_fails() {
    let mem = [b'a', 0];
    assert_eq!(read_c_string(&mem, 5), None);
}

#[test]
fn read_bytes_copies_the_window() {
    let mem = [1u8, 2, 3, 4, 5];
    assert_eq!(read_bytes(&mem, 1, 3), Ok(vec![2, 3, 4]));
    assert_eq!(read_bytes(&mem, 0, 0), Ok(Vec::new()));
}

#[test]
fn read_bytes_out_of_range_fails() {
    let mem = [1u8, 2, 3];
    assert_eq!(read_bytes(&mem, 2, 2), Err(GuestMemError::OutOfBounds));
    assert_eq!(read_bytes(&mem, 4, 0), Err(GuestMemError::OutOfBounds));
}

#[test]
fn serial_output_channel_one_decodes_utf8() {
    let r = decode_serial_output(1, b"hello".to_vec());
    assert_eq!(r, Some(String::from("hello")));
}

#[test]
fn serial_output_other_channels_print_nothing() {
    assert_eq!(decode_serial_output(2, b"hello".to_vec()), None);
    assert_eq!(decode_serial_output(0, Vec::new()), None);
}

#[test]
fn serial_output_invalid_utf8_is_refused() {
    assert_eq!(decode_serial_output(1, vec![0xff, 0xfe]), None);
}
