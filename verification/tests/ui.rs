use rsplayer::song::Song;
use rsplayer::ui::{html_escape, local_album_image};
use rsplayer::ui::{format_duration, format_time, get_search_term, pl_slug, DspFilterType, LrcLibResponse};

#[test]
fn play_time_is_minutes_and_two_digit_seconds() {
    assert_eq!(format_time(0), "0:00");
    assert_eq!(format_time(5), "0:05");
    assert_eq!(format_time(65), "1:05");
    assert_eq!(format_time(600), "10:00");
    assert_eq!(format_time(3599), "59:59");
    assert_eq!(format_time(3600), "60:00");
}

#[test]
fn durations_leave_out_leading_zero_units() {
    assert_eq!(format_duration(0), "0m");
    assert_eq!(format_duration(59), "0m");
    assert_eq!(format_duration(61), "1m");
    assert_eq!(format_duration(3600), "1h 0m");
    assert_eq!(format_duration(3 * 3600 + 25 * 60), "3h 25m");
    assert_eq!(format_duration(86400), "1d 0h 0m");
    assert_eq!(format_duration(2 * 86400 + 5 * 3600 + 7 * 60 + 30), "2d 5h 7m");
}

#[test]
fn slugs_keep_letters_and_digits() {
    assert_eq!(pl_slug("Rock & Roll 80s"), "rock---roll-80s");
    assert_eq!(pl_slug("Ünïcödé"), "Ünïcödé".chars().map(|c| c.to_ascii_lowercase()).collect::<String>());
    assert_eq!(pl_slug(""), "");
    assert_eq!(pl_slug("a.b/c"), "a-b-c");
}

fn parts(ps: &[&str]) -> Vec<String> {
    ps.iter().map(|p| p.to_string()).collect()
}

#[test]
fn search_term_follows_the_marker() {
    assert_eq!(get_search_term(&parts(&["library", "files?search=abba"])), Some("abba".to_string()));
    assert_eq!(get_search_term(&parts(&["x?search=", "y?search=z"])), Some(String::new()));
    assert_eq!(get_search_term(&parts(&["a", "b?search=one?search=two"])), Some("one?search=two".to_string()));
    assert_eq!(get_search_term(&parts(&["library", "files"])), None);
    assert_eq!(get_search_term(&[]), None);
}

#[test]
fn filter_labels() {
    assert_eq!(DspFilterType::Peaking.label(), "Peaking");
    assert_eq!(DspFilterType::LowShelfFO.label(), "LowShelfFO");
    assert_eq!(DspFilterType::Gain.label(), "Gain");
    assert_eq!(DspFilterType::AllPass.label(), "AllPass");
}

#[test]
fn lyrics_response_holds_both_kinds() {
    let r = LrcLibResponse { plain_lyrics: Some("la la".to_string()), synced_lyrics: None };
    assert_eq!(r.plain_lyrics.as_deref(), Some("la la"));
    assert!(r.synced_lyrics.is_none());
}

#[test]
fn panic_messages_are_escaped_for_html() {
    assert_eq!(html_escape("a < b && c > \"d\""), "a &lt; b &amp;&amp; c &gt; &quot;d&quot;");
    assert_eq!(html_escape("plain"), "plain");
    assert_eq!(html_escape(""), "");
}

#[test]
fn album_art_prefers_the_embedded_image() {
    let mut s = Song { image_url: Some("http://x/cover.jpg".to_string()), ..Default::default() };
    assert_eq!(local_album_image(&s), Some("http://x/cover.jpg".to_string()));
    s.image_id = Some("42".to_string());
    assert_eq!(local_album_image(&s), Some("/artwork/42".to_string()));
    assert_eq!(local_album_image(&Song::default()), None);
}
