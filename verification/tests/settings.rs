use kourain_media::settings::Settings;

#[test]
fn settings_defaults() {
    let s = Settings::from_json("");
    assert_eq!(s.default_path, "");
    assert_eq!(s.default_selected_format, "aac");
    assert_eq!(s.default_bit_rate, 48);
    assert_eq!(s.default_sample_rate, 22050);
    assert_eq!(s.default_channels, 1);
    assert_eq!(s.default_max_instances, 4);
}

#[test]
fn settings_from_file_text() {
    let text = "{\"default_path\":\"D:/a\",\"default_selected_format\":\"opus\",\"default_bit_rate\":4294967297,\
                \"default_sample_rate\":48000,\"default_channels\":\"2\",\"default_max_instances\":-3}";
    let s = Settings::from_json(text);
    assert_eq!(s.default_path, "D:/a");
    assert_eq!(s.default_selected_format, "opus");
    assert_eq!(s.default_bit_rate, 1);
    assert_eq!(s.default_sample_rate, 48000);
    assert_eq!(s.default_channels, 1);
    assert_eq!(s.default_max_instances, 4);
}

#[test]
fn settings_from_fields() {
    let s = Settings::from_fields(None, Some("mp3".to_string()), Some(7), None, Some(2), Some(9));
    assert_eq!(s.default_path, "");
    assert_eq!(s.default_selected_format, "mp3");
    assert_eq!(s.default_bit_rate, 7);
    assert_eq!(s.default_sample_rate, 22050);
    assert_eq!(s.default_channels, 2);
    assert_eq!(s.default_max_instances, 9);
}
