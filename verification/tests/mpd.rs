use rsplayer::mpd_client::{
    current_song_page, filters_by_term, map_song, map_state, mpd_config, parse_song_id, search_page, tag_to_value,
    MpdSong, MpdState, PlayerState, MPD_CONF_FILE_TEMPLATE, PAGE_SIZE,
};
use rsplayer::mpd_response::{mpd_response_to_songs, response_is_complete, to_opt_string};
use rsplayer::song::Song;

fn lines(ls: &[&str]) -> Vec<String> {
    ls.iter().map(|l| l.to_string()).collect()
}

#[test]
fn response_records_become_songs() {
    let response = lines(&[
        "file: music/a.mp3\n",
        "Artist: Queen\n",
        "Title: \"Bohemian Rhapsody\"\n",
        "Time: 354\n",
        "Pos: 0\n",
        "Custom: x\n",
        "no separator here\n",
        "file: music/b.mp3\n",
        "Genre: Jazz\n",
        "Id: 7\n",
        "OK\n",
    ]);
    let songs = mpd_response_to_songs(&response);
    assert_eq!(songs.len(), 2);
    assert_eq!(songs[0].file, "music/a.mp3");
    assert_eq!(songs[0].artist.as_deref(), Some("Queen"));
    assert_eq!(songs[0].title.as_deref(), Some("Bohemian Rhapsody"));
    assert_eq!(songs[0].time, Some(354));
    assert_eq!(songs[0].tags, vec![("Custom".to_string(), "x".to_string())]);
    assert_eq!(songs[0].id, "");
    assert_eq!(songs[1].file, "music/b.mp3");
    assert_eq!(songs[1].genre.as_deref(), Some("Jazz"));
    assert_eq!(songs[1].id, "7");
    assert!(songs[1].artist.is_none());
}

#[test]
fn response_header_is_skipped() {
    let response = lines(&["OK MPD 0.23.5\n", "volume: 100\n", "file: x.flac\n", "Album: A\n", "OK\n"]);
    let songs = mpd_response_to_songs(&response);
    assert_eq!(songs.len(), 1);
    assert_eq!(songs[0].file, "x.flac");
    assert_eq!(songs[0].album.as_deref(), Some("A"));
}

#[test]
fn response_without_records_lists_nothing() {
    assert!(mpd_response_to_songs(&lines(&["OK\n"])).is_empty());
    assert!(mpd_response_to_songs(&lines(&["OK MPD 0.23.5\n", "state: play\n", "OK\n"])).is_empty());
    assert!(mpd_response_to_songs(&[]).is_empty());
}

#[test]
fn repeated_tag_keeps_its_first_place() {
    let response = lines(&["file: a\n", "Mood: calm\n", "Key: C\n", "Mood: \"happy\"\n", "OK\n"]);
    let songs = mpd_response_to_songs(&response);
    assert_eq!(
        songs[0].tags,
        vec![("Mood".to_string(), "happy".to_string()), ("Key".to_string(), "C".to_string())]
    );
}

#[test]
fn field_values_lose_quotes_and_spaces() {
    let v: Vec<char> = " \"a \"b\" \n".chars().collect();
    assert_eq!(to_opt_string(&v), Some("a b".to_string()));
    assert_eq!(to_opt_string(&[]), Some(String::new()));
}

fn mpd_song() -> MpdSong {
    MpdSong {
        file: "music/a.flac".to_string(),
        title: Some("Song".to_string()),
        place_id: Some(42),
        tags: vec![
            ("Artist".to_string(), "First".to_string()),
            ("Artist".to_string(), "Second".to_string()),
            ("Time".to_string(), "215".to_string()),
            ("Genre".to_string(), "Rock".to_string()),
        ],
    }
}

#[test]
fn first_tag_of_a_name_is_its_value() {
    let s = mpd_song();
    assert_eq!(tag_to_value(&s, "Artist"), Some("First".to_string()));
    assert_eq!(tag_to_value(&s, "Album"), None);
}

#[test]
fn mpd_song_maps_to_library_song() {
    let song = map_song(&mpd_song());
    assert_eq!(song.id, "42");
    assert_eq!(song.file, "music/a.flac");
    assert_eq!(song.title.as_deref(), Some("Song"));
    assert_eq!(song.artist.as_deref(), Some("First"));
    assert_eq!(song.genre.as_deref(), Some("Rock"));
    assert_eq!(song.time, Some(215));
    assert!(song.album.is_none());
    assert!(song.tags.is_empty());
    let unplaced = map_song(&MpdSong { place_id: None, tags: vec![], ..mpd_song() });
    assert_eq!(unplaced.id, "");
    assert_eq!(unplaced.time, None);
}

#[test]
fn player_states_map_one_to_one() {
    assert!(matches!(map_state(MpdState::Stop), PlayerState::STOPPED));
    assert!(matches!(map_state(MpdState::Play), PlayerState::PLAYING));
    assert!(matches!(map_state(MpdState::Pause), PlayerState::PAUSED));
}

#[test]
fn whole_responses_are_recognised() {
    assert!(response_is_complete(&lines(&["file: a\n", "Time: 12\n", "OK\n"])));
    assert!(response_is_complete(&lines(&["OK\n"])));
    assert!(response_is_complete(&[]));
    // records without the closing "OK" line
    assert!(!response_is_complete(&lines(&["file: a\n", "Title: t\n"])));
    // a Time field that is not a number
    assert!(!response_is_complete(&lines(&["file: a\n", "Time: soon\n", "OK\n"])));
    // a bad Time field after the "OK" line does not count
    assert!(response_is_complete(&lines(&["file: a\n", "OK\n", "Time: soon\n"])));
}

fn queue_song(id: &str) -> Song {
    Song { id: id.to_string(), file: format!("{id}.mp3"), ..Default::default() }
}

#[test]
fn current_song_page_starts_at_the_current_song() {
    let songs: Vec<Song> = (0..200).map(|i| queue_song(&i.to_string())).collect();
    let page = current_song_page(&songs, Some(&"150".to_string()));
    assert_eq!(page.len(), 50);
    assert_eq!(page[0].id, "150");
    let page = current_song_page(&songs, Some(&"10".to_string()));
    assert_eq!(page.len(), PAGE_SIZE);
    assert_eq!(page[0].id, "10");
    assert_eq!(page[PAGE_SIZE - 1].id, "89");
    // an unknown current song leaves an empty page
    assert!(current_song_page(&songs, Some(&"x".to_string())).is_empty());
    // without a current song the whole queue is listed
    assert_eq!(current_song_page(&songs, None).len(), 200);
}

#[test]
fn mpd_configuration_gets_the_directory_and_device() {
    let conf = mpd_config("/music", "hw:0,0");
    assert!(conf.contains("music_directory           \"/music\"\n"));
    assert!(conf.contains("  device                  \"hw:0,0\"\n"));
    assert!(!conf.contains("{music_directory}"));
    assert!(!conf.contains("{audio_device}"));
    assert_eq!(
        conf,
        MPD_CONF_FILE_TEMPLATE.replace("{music_directory}", "/music").replace("{audio_device}", "hw:0,0")
    );
}

#[test]
fn song_ids_are_unsigned_numbers() {
    assert_eq!(parse_song_id("42"), Some(42));
    assert_eq!(parse_song_id("4294967295"), Some(u32::MAX));
    assert_eq!(parse_song_id("4294967296"), None);
    assert_eq!(parse_song_id("x1"), None);
    assert_eq!(parse_song_id(""), None);
}

#[test]
fn search_term_filters_only_when_longer_than_two_bytes() {
    assert!(!filters_by_term(""));
    assert!(!filters_by_term("ab"));
    assert!(filters_by_term("abc"));
    // a two-byte letter and one more byte make three
    assert!(!filters_by_term("é"));
    assert!(filters_by_term("éa"));
}

#[test]
fn search_pages_list_the_matching_songs() {
    let songs: Vec<Song> = (0..200).map(|i| queue_song(&i.to_string())).collect();
    let matched: Vec<bool> = (0..200).map(|i| i % 2 == 0).collect();
    let page = search_page(&songs, &matched, "even", 0);
    assert_eq!(page.total, 100);
    assert_eq!(page.offset, PAGE_SIZE);
    assert_eq!(page.limit, PAGE_SIZE);
    assert_eq!(page.items.len(), PAGE_SIZE);
    assert_eq!(page.items[1].id, "2");
    let page = search_page(&songs, &matched, "even", 80);
    assert_eq!(page.items.len(), 20);
    assert_eq!(page.items[0].id, "160");
    assert_eq!(page.offset, 160);
    assert!(search_page(&songs, &matched, "even", 100).items.is_empty());
    // a short term lists the whole queue
    let page = search_page(&songs, &matched, "ev", 120);
    assert_eq!(page.total, 200);
    assert_eq!(page.items.len(), 80);
    assert_eq!(page.items[0].id, "120");
}
