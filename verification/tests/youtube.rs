use kourain_media::youtube::{
    audio_file_name, download_attempts_done, fallback_playlist_entries, initial_data_json, is_playlist_url, playlist_save_path, watch_url,
};

#[test]
fn playlist_addresses() {
    assert!(is_playlist_url("https://www.youtube.com/playlist?list=PL123"));
    assert!(is_playlist_url("https://www.youtube.com/watch?v=abc&list=PL1"));
    assert!(!is_playlist_url("https://www.youtube.com/watch?v=abc"));
}

#[test]
fn watch_addresses() {
    assert_eq!(watch_url("dQw4w9WgXcQ"), "https://www.youtube.com/watch?v=dQw4w9WgXcQ");
    assert_eq!(watch_url("https://youtu.be/dQw4w9WgXcQ"), "https://youtu.be/dQw4w9WgXcQ");
    assert_eq!(watch_url("ééééééééééé"), "ééééééééééé");
    assert_eq!(watch_url("12345678901234567890"), "https://www.youtube.com/watch?v=12345678901234567890");
}

#[test]
fn audio_file_names() {
    assert_eq!(audio_file_name("My Song"), "My Song.mp3");
}

#[test]
fn initial_data_extraction() {
    let html = "<html><script>var ytInitialData = {\"a\":1};  </script><p>x</p></html>";
    assert_eq!(initial_data_json(html), " {\"a\":1}");
    assert_eq!(initial_data_json("no data here"), "");
    assert_eq!(initial_data_json("var ytInitialData ={}"), "{}");
    assert_eq!(initial_data_json("var ytInitialData =[1];;\n</script>"), "[1];");
    assert_eq!(initial_data_json("xvar ytInitialData = 1 var ytInitialData = 2"), " 1");
}

#[test]
fn playlist_folders() {
    assert_eq!(playlist_save_path("u", "C:\\music", Some(" Mix ")), Some("C:\\music\\Mix".to_string()));
    assert_eq!(playlist_save_path("u", "C:\\music\\Mix", Some("Mix")), None);
    assert_eq!(playlist_save_path("u", "C:\\music", Some("   ")), None);
    assert_eq!(playlist_save_path("u", "C:\\music", None), None);
    assert_eq!(playlist_save_path("", "C:\\music", Some("Mix")), None);
    assert_eq!(playlist_save_path("u", "", Some("Mix")), None);
}

#[test]
fn download_retries() {
    assert!(!download_attempts_done(1, 0));
    assert!(!download_attempts_done(3, 0));
    assert!(download_attempts_done(4, 0));
    assert!(download_attempts_done(1, 10));
}

#[test]
fn fallback_playlist_from_page() {
    let page = [
        "<html><script>var ytInitialData = {\"header\":{\"pageHeaderRenderer\":{\"pageTitle\":\"My List\"}},",
        "\"contents\":{\"twoColumnBrowseResultsRenderer\":{\"tabs\":[{\"tabRenderer\":{\"content\":",
        "{\"sectionListRenderer\":{\"contents\":[{\"itemSectionRenderer\":{\"contents\":[",
        "{\"playlistVideoListRenderer\":{\"contents\":[",
        "{\"playlistVideoRenderer\":{\"videoId\":\"abc\",\"title\":{\"runs\":[{\"text\":\"First\"}]},",
        "\"lengthSeconds\":\"61\"}},",
        "{\"videoId\":\"def\",\"lengthSeconds\":7},",
        "{\"continuationItemRenderer\":{}},",
        "{\"playlistVideoRenderer\":null,\"videoId\":\"zzz\"}",
        "]}}]}}]}}}}]}}};</script></html>",
    ]
    .concat();
    let (title, videos) = fallback_playlist_entries(&page).expect("a playlist");
    assert_eq!(title, "My List");
    assert_eq!(
        videos,
        vec![
            ("abc".to_string(), "First".to_string(), Some("61".to_string())),
            ("def".to_string(), String::new(), None),
            (String::new(), String::new(), None),
            (String::new(), String::new(), None),
        ]
    );
}

#[test]
fn fallback_playlist_without_data() {
    assert_eq!(fallback_playlist_entries("no data here"), None);
    assert_eq!(fallback_playlist_entries("var ytInitialData = {\"contents\":{}};</script>"), None);
    assert_eq!(fallback_playlist_entries("var ytInitialData = {not json};</script>"), None);
    let no_title = "var ytInitialData = {\"contents\":{\"twoColumnBrowseResultsRenderer\":{\"tabs\":[{\"tabRenderer\":{\"content\":{\"sectionListRenderer\":{\"contents\":[{\"itemSectionRenderer\":{\"contents\":[{\"playlistVideoListRenderer\":{\"contents\":[]}}]}}]}}}}]}}};</script>";
    assert_eq!(fallback_playlist_entries(no_title), Some((String::new(), vec![])));
}
