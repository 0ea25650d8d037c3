use fmod_audio::{master_bank_files, text_from_buffer, DriverInfo, Status};

#[test]
fn master_files_for_master() {
    let (master, strings) = master_bank_files("Master");
    assert_eq!(master, "Master.bank");
    assert_eq!(strings, "Master.strings.bank");
}

#[test]
fn text_stops_before_terminator() {
    let mut buf = b"event:/sfx/beep\0".to_vec();
    buf.resize(1024, 0);
    assert_eq!(text_from_buffer(&buf, 16), Ok("event:/sfx/beep".to_string()));
}

#[test]
fn text_of_only_terminator_is_empty() {
    let buf = vec![0u8; 8];
    assert_eq!(text_from_buffer(&buf, 1), Ok(String::new()));
}

#[test]
fn text_with_bad_count_is_encoding_error() {
    let buf = b"abc\0".to_vec();
    assert_eq!(text_from_buffer(&buf, 0), Err(Status::StringEncoding));
    assert_eq!(text_from_buffer(&buf, 5), Err(Status::StringEncoding));
    assert_eq!(text_from_buffer(&buf, -1), Err(Status::StringEncoding));
}

#[test]
fn text_with_invalid_utf8_is_encoding_error() {
    let buf = vec![0x66u8, 0xff, 0xfe, 0];
    assert_eq!(text_from_buffer(&buf, 4), Err(Status::StringEncoding));
}

#[test]
fn text_keeps_multibyte_characters() {
    let buf = "événement\0".as_bytes().to_vec();
    let n = buf.len() as i32;
    assert_eq!(text_from_buffer(&buf, n), Ok("événement".to_string()));
}

#[test]
fn driver_info_keeps_its_fields() {
    let info = DriverInfo::new("Speakers".to_string(), [7u8; 16], 48000, 3, 2);
    assert_eq!(info.name(), "Speakers");
    assert_eq!(info.guid(), [7u8; 16]);
    assert_eq!(info.sample_rate(), 48000);
    assert_eq!(info.speaker_mode(), 3);
    assert_eq!(info.speaker_mode_channels(), 2);
}
