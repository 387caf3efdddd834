use moraya_core::encoding::{base64_decode, new_session_id, u64_to_dec};

#[test]
fn decodes_plain_base64() {
    assert_eq!(base64_decode("aGVsbG8="), Ok(b"hello".to_vec()));
    assert_eq!(base64_decode("aGVsbG8gd29ybGQ="), Ok(b"hello world".to_vec()));
    assert_eq!(base64_decode(""), Ok(vec![]));
}

#[test]
fn skips_whitespace() {
    assert_eq!(base64_decode("aGVs\nbG8=\r\n"), Ok(b"hello".to_vec()));
    assert_eq!(base64_decode("aG Vs bG 8="), Ok(b"hello".to_vec()));
}

#[test]
fn stops_at_padding() {
    // Everything after the first `=` is ignored.
    assert_eq!(base64_decode("aGVsbG8=garbage!!"), Ok(b"hello".to_vec()));
}

#[test]
fn rejects_bytes_outside_alphabet() {
    assert_eq!(base64_decode("aGV!bG8="), Err("Invalid data".to_string()));
    assert_eq!(base64_decode("@@@@"), Err("Invalid data".to_string()));
}

#[test]
fn decodes_all_alphabet_ranges() {
    assert_eq!(base64_decode("+/8="), Ok(vec![0xfb, 0xff]));
    assert_eq!(base64_decode("ABCD"), Ok(vec![0x00, 0x10, 0x83]));
    assert_eq!(base64_decode("0123"), Ok(vec![0xd3, 0x5d, 0xb7]));
}

#[test]
fn renders_decimals() {
    assert_eq!(u64_to_dec(0), "0");
    assert_eq!(u64_to_dec(7), "7");
    assert_eq!(u64_to_dec(12345), "12345");
    assert_eq!(u64_to_dec(u64::MAX), "18446744073709551615");
}

#[test]
fn session_ids_name_time_and_counter() {
    assert_eq!(new_session_id(1700000000000, 0), "speech-1700000000000-0");
    assert_eq!(new_session_id(123, 42), "speech-123-42");
}
