use rsplayer::playlists::{
    classify_playlist_id, files_in_folder_ignore_case, get_dynamic_playlists, get_playlist_categories,
    get_playlist_items_from_library, get_playlists_by_artist, get_playlists_by_date, get_playlists_by_folder,
    get_playlists_by_genre, nth_part_chars, saved_playlists, PlaylistQuery, BY_FOLDER_DEPTH, CATEGORY_ID_BY_ARTIST,
    CATEGORY_ID_BY_DATE, CATEGORY_ID_BY_FOLDER, CATEGORY_ID_BY_GENRE,
};
use rsplayer::song::Song;

fn song(file: &str, genre: Option<&str>, artist: Option<&str>, date: Option<&str>) -> Song {
    Song {
        id: file.to_string(),
        file: file.to_string(),
        genre: genre.map(str::to_string),
        artist: artist.map(str::to_string),
        date: date.map(str::to_string),
        ..Default::default()
    }
}

fn library() -> Vec<Song> {
    vec![
        song("music/Rock/a.mp3", Some("Rock"), Some("Queen"), Some("1975")),
        song("music/Jazz/b.mp3", Some("Jazz"), Some("Miles"), Some("1959")),
        song("music/Rock/c.mp3", Some("Rock"), Some("Queen"), Some("1975")),
        song("music/Pop/d.mp3", Some("80s hits"), Some("2Pac"), None),
        song("e.mp3", None, None, Some("2001")),
    ]
}

fn names(pls: &[rsplayer::playlists::Playlist]) -> Vec<String> {
    pls.iter().map(|p| p.name.clone()).collect()
}

#[test]
fn test_get_dynamic_pl() {
    let all_songs = vec![Song::default(), Song::default()];
    let dpl = get_dynamic_playlists(vec![CATEGORY_ID_BY_FOLDER.to_owned()], &all_songs, 0, 10, 0);
    assert_eq!(dpl[0].category_id, CATEGORY_ID_BY_FOLDER);
}

#[test]
fn genres_are_sorted_distinct_and_alphabetic() {
    let pls = get_playlists_by_genre(&library(), 0, 10);
    assert_eq!(names(&pls), vec!["Jazz", "Rock"]);
    assert_eq!(pls[0].id, "playlist_by_genre_Jazz");
    assert_eq!(pls[0].description.as_deref(), Some("Songs by genre Jazz"));
    assert!(pls[0].image.is_none());
    assert!(pls[0].owner_name.is_none());
}

#[test]
fn genre_page_skips_and_limits() {
    let pls = get_playlists_by_genre(&library(), 1, 1);
    assert_eq!(names(&pls), vec!["Rock"]);
    assert!(get_playlists_by_genre(&library(), 2, 5).is_empty());
    assert!(get_playlists_by_genre(&library(), 0, 0).is_empty());
}

#[test]
fn artists_are_sorted_distinct_and_alphabetic() {
    let pls = get_playlists_by_artist(&library(), 0, 10);
    assert_eq!(names(&pls), vec!["Miles", "Queen"]);
    assert_eq!(pls[1].id, "playlist_by_artist_Queen");
    assert_eq!(pls[1].description.as_deref(), Some("Songs by artist Queen"));
}

#[test]
fn dates_are_newest_first() {
    let pls = get_playlists_by_date(&library(), 0, 10);
    assert_eq!(names(&pls), vec!["2001", "1975", "1959"]);
    assert_eq!(pls[0].id, "playlist_by_date_2001");
    assert_eq!(pls[0].description.as_deref(), Some("Songs by date 2001"));
}

#[test]
fn folders_are_listed_once_each() {
    let pls = get_playlists_by_folder(&library(), 0, 10, 1);
    assert_eq!(names(&pls), vec!["Rock", "Jazz", "Pop", ""]);
    assert_eq!(pls[0].id, "playlist_by_folder_Rock");
    assert_eq!(pls[0].description.as_deref(), Some("Songs by dir Rock"));
    let top = get_playlists_by_folder(&library(), 0, 10, 0);
    assert_eq!(names(&top), vec!["music", "e.mp3"]);
}

#[test]
fn nth_part_splits_at_the_separator() {
    let s: Vec<char> = "a/bc//d".chars().collect();
    assert_eq!(nth_part_chars(&s, '/', 0), vec!['a']);
    assert_eq!(nth_part_chars(&s, '/', 1), vec!['b', 'c']);
    assert_eq!(nth_part_chars(&s, '/', 2), Vec::<char>::new());
    assert_eq!(nth_part_chars(&s, '/', 3), vec!['d']);
    assert_eq!(nth_part_chars(&s, '/', 4), Vec::<char>::new());
}

#[test]
fn dynamic_playlists_follow_the_requested_categories() {
    let lib = library();
    let ids = vec![
        CATEGORY_ID_BY_GENRE.to_owned(),
        CATEGORY_ID_BY_ARTIST.to_owned(),
        CATEGORY_ID_BY_DATE.to_owned(),
        CATEGORY_ID_BY_FOLDER.to_owned(),
    ];
    let pages = get_dynamic_playlists(ids, &lib, 0, 2, BY_FOLDER_DEPTH);
    assert_eq!(pages.len(), 4);
    assert_eq!(pages[0].category_id, CATEGORY_ID_BY_GENRE);
    assert_eq!(names(&pages[0].playlists), vec!["Jazz", "Rock"]);
    assert_eq!(pages[1].category_id, CATEGORY_ID_BY_ARTIST);
    assert_eq!(names(&pages[1].playlists), vec!["Miles", "Queen"]);
    assert_eq!(pages[2].category_id, CATEGORY_ID_BY_DATE);
    assert_eq!(names(&pages[2].playlists), vec!["2001", "1975"]);
    assert_eq!(pages[3].category_id, CATEGORY_ID_BY_FOLDER);
    assert_eq!(names(&pages[3].playlists), vec!["Rock", "Jazz"]);
    assert_eq!(pages[3].offset, 0);
    assert_eq!(pages[3].limit, 2);
}

#[test]
fn four_categories_are_offered() {
    let cats = get_playlist_categories();
    let ids: Vec<&str> = cats.iter().map(|c| c.id.as_str()).collect();
    let names: Vec<&str> = cats.iter().map(|c| c.name.as_str()).collect();
    assert_eq!(ids, vec![CATEGORY_ID_BY_ARTIST, CATEGORY_ID_BY_DATE, CATEGORY_ID_BY_GENRE, CATEGORY_ID_BY_FOLDER]);
    assert_eq!(names, vec!["By Artist", "By Date", "By Genre", "By Directory"]);
    assert!(cats.iter().all(|c| c.icon.is_empty()));
}

#[test]
fn playlist_ids_are_classified_by_prefix() {
    assert!(matches!(classify_playlist_id("playlist_saved_Mix"), PlaylistQuery::Saved(n) if n == "Mix"));
    assert!(matches!(classify_playlist_id("playlist_by_genre_Rock"), PlaylistQuery::ByGenre(n) if n == "Rock"));
    assert!(matches!(classify_playlist_id("playlist_by_artist_Queen"), PlaylistQuery::ByArtist(n) if n == "Queen"));
    assert!(matches!(classify_playlist_id("playlist_by_date_1975"), PlaylistQuery::ByDate(n) if n == "1975"));
    assert!(matches!(classify_playlist_id("playlist_by_folder_Jazz"), PlaylistQuery::ByFolder(n) if n == "Jazz"));
    assert!(matches!(classify_playlist_id("album_42"), PlaylistQuery::Unknown));
    // every copy of the prefix is removed from the name
    assert!(matches!(classify_playlist_id("playlist_by_genre_playlist_by_genre_X"), PlaylistQuery::ByGenre(n) if n == "X"));
}

#[test]
fn dynamic_playlist_id_round_trips_to_its_songs() {
    let lib = library();
    for p in get_playlists_by_genre(&lib, 0, 10) {
        let q = classify_playlist_id(&p.id);
        assert!(matches!(&q, PlaylistQuery::ByGenre(n) if *n == p.name));
        let items = get_playlist_items_from_library(&q, &lib);
        assert!(!items.is_empty());
        assert!(items.iter().all(|s| s.genre.as_deref() == Some(p.name.as_str())));
    }
    for p in get_playlists_by_folder(&lib, 0, 10, BY_FOLDER_DEPTH) {
        let q = classify_playlist_id(&p.id);
        assert!(matches!(&q, PlaylistQuery::ByFolder(n) if *n == p.name));
    }
}

#[test]
fn library_items_of_each_kind() {
    let lib = library();
    let rock = get_playlist_items_from_library(&PlaylistQuery::ByGenre("Rock".to_string()), &lib);
    let files: Vec<&str> = rock.iter().map(|s| s.file.as_str()).collect();
    assert_eq!(files, vec!["music/Rock/a.mp3", "music/Rock/c.mp3"]);
    let queen = get_playlist_items_from_library(&PlaylistQuery::ByArtist("Queen".to_string()), &lib);
    assert_eq!(queen.len(), 2);
    let d2001 = get_playlist_items_from_library(&PlaylistQuery::ByDate("2001".to_string()), &lib);
    assert_eq!(d2001.len(), 1);
    assert_eq!(d2001[0].file, "e.mp3");
    let jazz = get_playlist_items_from_library(&PlaylistQuery::ByFolder("Jazz".to_string()), &lib);
    assert_eq!(jazz.len(), 1);
    assert_eq!(jazz[0].file, "music/Jazz/b.mp3");
    // a file without a folder belongs to no folder playlist
    let none = get_playlist_items_from_library(&PlaylistQuery::ByFolder("".to_string()), &lib);
    assert!(none.is_empty());
    assert!(get_playlist_items_from_library(&PlaylistQuery::Saved("Mix".to_string()), &lib).is_empty());
    assert!(get_playlist_items_from_library(&PlaylistQuery::Unknown, &lib).is_empty());
}

#[test]
fn library_items_are_limited_to_one_hundred() {
    let lib: Vec<Song> = (0..150).map(|i| song(&format!("music/Rock/{i}.mp3"), Some("Rock"), None, None)).collect();
    let items = get_playlist_items_from_library(&PlaylistQuery::ByGenre("Rock".to_string()), &lib);
    assert_eq!(items.len(), 100);
    assert_eq!(items[99].file, "music/Rock/99.mp3");
}

#[test]
fn folder_files_ignore_ascii_case() {
    let lib = library();
    let files = files_in_folder_ignore_case("rOCK", &lib);
    assert_eq!(files, vec!["music/Rock/a.mp3".to_string(), "music/Rock/c.mp3".to_string()]);
    let top = files_in_folder_ignore_case("", &lib);
    assert_eq!(top, vec!["e.mp3".to_string()]);
}

#[test]
fn saved_playlists_get_prefixed_ids() {
    let pls = saved_playlists(&["Mix".to_string(), "Road trip".to_string()]);
    assert_eq!(pls.len(), 2);
    assert_eq!(pls[1].name, "Road trip");
    assert_eq!(pls[1].id, "playlist_saved_Road trip");
    assert!(pls[1].description.is_none());
    assert!(matches!(classify_playlist_id(&pls[0].id), PlaylistQuery::Saved(n) if n == "Mix"));
}
