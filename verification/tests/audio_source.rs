use rsplayer::audio_source::stream_extension;
use rsplayer::audio_source::{has_ape_extension, is_http_stream, join, resolve_ape_path, resolve_ape_path_among};

#[test]
fn http_sources_are_streams() {
    assert!(is_http_stream("http://radio/stream"));
    assert!(is_http_stream("https://radio/stream"));
    assert!(!is_http_stream("music/a.flac"));
    assert!(!is_http_stream("htt"));
}

#[test]
fn paths_join_as_on_unix() {
    assert_eq!(join(&"/music".to_string(), "a/b.ape"), "/music/a/b.ape");
    assert_eq!(join(&"/music/".to_string(), "b.ape"), "/music/b.ape");
    assert_eq!(join(&String::new(), "b.ape"), "b.ape");
    assert_eq!(join(&"/music".to_string(), "/abs/b.ape"), "/abs/b.ape");
}

#[test]
fn ape_extension_in_any_case() {
    assert!(has_ape_extension("/m/a.ape"));
    assert!(has_ape_extension("/m/a.APE"));
    assert!(!has_ape_extension("/m/a.flac"));
    assert!(!has_ape_extension("/m/.ape"));
    assert!(!has_ape_extension("/m/ape"));
}

fn dirs(ds: &[&str]) -> Vec<String> {
    ds.iter().map(|d| d.to_string()).collect()
}

#[test]
fn first_present_ape_path_is_chosen() {
    let music = dirs(&["/a", "/b", "/c"]);
    assert_eq!(resolve_ape_path_among("x.ape", &music, &[false, true, true]), Some("/b/x.ape".to_string()));
    assert_eq!(resolve_ape_path_among("x.ape", &music, &[false, false, false]), None);
    assert_eq!(resolve_ape_path_among("x.flac", &music, &[true, true, true]), None);
    assert_eq!(resolve_ape_path_among("x.ape", &[], &[]), None);
}

#[test]
fn missing_ape_files_are_not_found() {
    let music = dirs(&["/nonexistent-music-dir-1", "/nonexistent-music-dir-2"]);
    assert_eq!(resolve_ape_path("x.ape", &music), None);
    assert_eq!(resolve_ape_path("x.flac", &music), None);
}

#[test]
fn stream_content_types_suggest_an_extension() {
    assert_eq!(stream_extension("audio/mpeg"), Some("mp3"));
    assert_eq!(stream_extension("audio/aacp"), Some("aac"));
    assert_eq!(stream_extension("application/ogg"), Some("ogg"));
    assert_eq!(stream_extension("audio/x-flac"), Some("flac"));
    assert_eq!(stream_extension("audio/x-wav"), Some("wav"));
    assert_eq!(stream_extension("audio/x-m4a"), Some("m4a"));
    assert_eq!(stream_extension("text/html"), None);
    assert_eq!(stream_extension("AUDIO/MPEG"), None);
}
