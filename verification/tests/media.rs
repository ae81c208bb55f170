use kourain_media::media::{first_known_track, is_audioable_extension, MediaInfo};

#[test]
fn media_info_from_params() {
    let info = MediaInfo::from_codec_params(Some(44100), Some(441000), Some(2), "Mp3".to_string());
    assert_eq!(info.sample_rate, Some(44100));
    assert_eq!(info.bit_rate, None);
    assert_eq!(info.channels, Some(2));
    assert_eq!(info.duration_ms, Some(10000));
    assert_eq!(info.codec, Some("Mp3".to_string()));
}

#[test]
fn media_info_missing_params() {
    let info = MediaInfo::from_codec_params(None, Some(441000), Some(300), String::new());
    assert_eq!(info.duration_ms, None);
    assert_eq!(info.channels, Some(44));
    assert_eq!(info.bit_rate, None);
    let unknown = MediaInfo::unknown();
    assert_eq!(unknown.codec, None);
    assert_eq!(unknown.duration_ms, None);
}

#[test]
fn audio_extensions() {
    for e in ["mp3", "wav", "flac", "aac", "ogg", "opus", "MP3", "Flac", "OPUS"] {
        assert!(is_audioable_extension(e), "{}", e);
    }
    for e in ["", "mp4", "txt", "mp3 ", "m4a", "ógg"] {
        assert!(!is_audioable_extension(e), "{}", e);
    }
}

#[test]
fn first_track_with_known_codec() {
    assert_eq!(first_known_track(&[]), None);
    assert_eq!(first_known_track(&[true, true]), None);
    assert_eq!(first_known_track(&[false, true]), Some(0));
    assert_eq!(first_known_track(&[true, true, false, false]), Some(2));
}
