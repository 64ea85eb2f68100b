use h3::proto::settings::{
    Settings, SettingsError, ENABLE_WEBTRANSPORT, MAX_HEADER_LIST_SIZE, QPACK_MAX_BLOCKED_STREAMS,
    QPACK_MAX_TABLE_CAPACITY,
};

#[test]
fn settings_settings_frame() {
    let mut s = Settings::default();
    s.insert(MAX_HEADER_LIST_SIZE, 0xfad1).unwrap();
    s.insert(QPACK_MAX_TABLE_CAPACITY, 0xfad2).unwrap();
    s.insert(QPACK_MAX_BLOCKED_STREAMS, 0xfad3).unwrap();
    s.do_insert(95, 0).unwrap();
    let mut buf = Vec::new();
    s.encode(&mut buf);
    assert_eq!(
        buf,
        vec![4, 18, 6, 128, 0, 250, 209, 1, 128, 0, 250, 210, 7, 128, 0, 250, 211, 64, 95, 0]
    );
    let decoded = Settings::decode(&buf[2..]).unwrap();
    let mut expected = Settings::default();
    expected.insert(MAX_HEADER_LIST_SIZE, 0xfad1).unwrap();
    expected.insert(QPACK_MAX_TABLE_CAPACITY, 0xfad2).unwrap();
    expected.insert(QPACK_MAX_BLOCKED_STREAMS, 0xfad3).unwrap();
    assert_eq!(decoded, expected);
}

#[test]
fn settings_frame_empty() {
    let s = Settings::default();
    let mut buf = Vec::new();
    s.encode(&mut buf);
    assert_eq!(buf, vec![4, 0]);
    assert_eq!(Settings::decode(&buf[2..]).unwrap(), Settings::default());
}

#[test]
fn insert_refuses_unknown_and_repeated() {
    let mut s = Settings::default();
    assert_eq!(s.insert(0x42, 1), Err(SettingsError::InvalidSettingId(0x42)));
    assert_eq!(s.insert(ENABLE_WEBTRANSPORT, 1), Ok(()));
    assert_eq!(s.insert(ENABLE_WEBTRANSPORT, 2), Err(SettingsError::Repeated(ENABLE_WEBTRANSPORT)));
    assert_eq!(s.get(ENABLE_WEBTRANSPORT), Some(1));
    assert_eq!(s.get(MAX_HEADER_LIST_SIZE), None);
}

#[test]
fn exceeded_after_five() {
    let mut s = Settings::default();
    for id in 0x21..0x26 {
        s.do_insert(id, 0).unwrap();
    }
    assert_eq!(s.do_insert(0x30, 0), Err(SettingsError::Exceeded));
}

#[test]
fn decode_refuses_reserved_and_malformed() {
    assert_eq!(Settings::decode(&[2, 0]), Err(SettingsError::InvalidSettingId(2)));
    assert_eq!(Settings::decode(&[6]), Err(SettingsError::Malformed));
    assert_eq!(Settings::decode(&[6, 1, 6, 2]), Err(SettingsError::Repeated(6)));
}

#[test]
fn grease_setting_has_grease_form() {
    let mut s = Settings::default();
    s.insert_grease(7).unwrap();
    let mut buf = Vec::new();
    s.encode(&mut buf);
    // the grease identifier is dropped when read back: unknown identifiers are ignored
    assert_eq!(Settings::decode(&buf[2..]).unwrap(), Settings::default());
    assert_eq!(s.payload_len(), buf.len() - 2);
}
