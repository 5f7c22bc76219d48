use rsplayer::queue::PlaybackQueue;
use rsplayer::song::Song;

fn create_queue() -> PlaybackQueue {
    PlaybackQueue::new()
}

/// A stand-in for the digest the player derives a song's identifier from:
/// distinct files give distinct identifiers.
fn song_id(file: &str) -> String {
    format!("id:{file}")
}

fn create_song(ext: &str) -> Song {
    let file = format!("assets/music.{ext}");
    let id = song_id(&file);
    Song {
        id,
        file,
        ..Default::default()
    }
}

fn current_file(queue: &PlaybackQueue) -> String {
    queue.get_current_song().unwrap().file
}

#[test]
fn should_replace_queue_with_new_songs() {
    let mut queue = create_queue();
    for ext in 0..10 {
        queue.add_song(create_song(format!("ext{ext}").as_str()));
    }
    assert_eq!(queue.len(), 10);

    let mut new_songs = Vec::new();
    for ext in 11..15 {
        new_songs.push(Some(create_song(format!("2ext{ext}").as_str())));
    }
    queue.replace_all(new_songs.iter().cloned().collect());
    assert_eq!(queue.len(), 4);
    assert_eq!(
        queue.get_current_song().unwrap().file,
        "assets/music.2ext11"
    )
}

#[test]
fn should_get_first_added_song_as_current() {
    let mut queue = create_queue();
    queue.add_song(create_song("mp3"));
    queue.add_song(create_song("wav"));
    queue.add_song(create_song("flac"));
    assert_eq!(queue.get_current_song().unwrap().file, "assets/music.mp3");
}

#[test]
fn should_move_current_to_next_by_one() {
    let mut queue = create_queue();
    queue.add_song(create_song("mp3"));
    queue.add_song(create_song("flac"));
    queue.add_song(create_song("wav"));
    queue.add_song(create_song("aac"));
    assert_eq!(queue.get_current_song().unwrap().file, "assets/music.mp3");
    assert!(queue.move_current_to_next_song());
    assert_eq!(queue.get_current_song().unwrap().file, "assets/music.flac");
    assert!(queue.move_current_to_next_song());
    assert_eq!(queue.get_current_song().unwrap().file, "assets/music.wav");
    assert!(queue.move_current_to_next_song());
    assert_eq!(queue.get_current_song().unwrap().file, "assets/music.aac");
}

#[test]
fn should_move_current_to_prev_by_one() {
    let mut queue = create_queue();
    queue.add_song(create_song("mp3"));
    queue.add_song(create_song("flac"));
    queue.add_song(create_song("wav"));
    queue.add_song(create_song("aac"));

    assert!(queue.move_current_to_next_song());
    assert!(queue.move_current_to_next_song());
    assert!(queue.move_current_to_next_song());
    assert_eq!(queue.get_current_song().unwrap().file, "assets/music.aac");
    assert!(queue.move_current_to_previous_song());
    assert_eq!(queue.get_current_song().unwrap().file, "assets/music.wav");
    assert!(queue.move_current_to_previous_song());
    assert_eq!(queue.get_current_song().unwrap().file, "assets/music.flac");
    assert!(queue.move_current_to_previous_song());
    assert_eq!(queue.get_current_song().unwrap().file, "assets/music.mp3");
}

#[test]
fn should_return_false_move_at_the_end() {
    let mut queue = create_queue();
    queue.add_song(create_song("mp3"));
    queue.add_song(create_song("flac"));
    assert_eq!(queue.get_current_song().unwrap().file, "assets/music.mp3");
    assert!(queue.move_current_to_next_song());
    assert_eq!(queue.get_current_song().unwrap().file, "assets/music.flac");
    // return false on last
    assert!(!queue.move_current_to_next_song());
}

#[test]
fn should_move_current_to_specific_song_id() {
    let mut queue = create_queue();
    for ext in 'a'..='z' {
        queue.add_song(create_song(format!("{ext}").as_str()));
    }
    let all_songs = queue.get_all_songs();
    let song_10 = &all_songs[9];
    assert!(queue.move_current_to(song_10.id.clone()));
    assert_eq!(queue.get_current_song().unwrap().file, song_10.file);

    let song_15 = &all_songs[14];
    assert!(queue.move_current_to(song_15.id.clone()));
    assert_eq!(queue.get_current_song().unwrap().file, song_15.file);
}

#[test]
fn should_return_all() {
    let mut queue = create_queue();
    for ext in 0..100 {
        queue.add_song(create_song(format!("ext{ext}").as_str()));
    }
    let all = queue.get_all_songs();
    assert_eq!(all.len(), 100);
    assert_eq!(all[0].file, "assets/music.ext0");
}

#[test]
fn should_return_page() {
    let mut queue = create_queue();
    for ext in 'a'..='z' {
        queue.add_song(create_song(format!("{ext}").as_str()));
    }
    let (total, songs) = queue.get_queue_page(0, 10);
    assert_eq!(total, 26);
    assert_eq!(songs.len(), 10);
    assert_eq!(songs[0].file, "assets/music.a");
    assert_eq!(songs[9].file, "assets/music.j");
}

#[test]
fn should_persist_current_song_after_drop() {
    let mut queue = create_queue();
    queue.add_song(create_song("mp3"));
    queue.add_song(create_song("flac"));
    queue.add_song(create_song("wav"));
    queue.add_song(create_song("ape"));
    assert!(queue.move_current_to_next_song());
    assert_eq!(queue.get_current_song().unwrap().file, "assets/music.flac");
    let stored = queue.get_all_songs();
    let current = queue.current_song_key();
    let random_next = queue.get_random_next();
    drop(queue);
    let queue = PlaybackQueue::restore(stored, current, random_next);
    assert_eq!(queue.get_current_song().unwrap().file, "assets/music.flac");
}

#[test]
fn should_not_return_next_song_when_random_next() {
    let mut queue = create_queue();
    for ext in 0..5000 {
        queue.add_song(create_song(format!("{ext}").as_str()));
    }
    assert!(queue.toggle_random_next());
    queue.move_current_to_next_song();
    assert_ne!(queue.get_current_song().unwrap().file, "assets/music.1");
}

// ------------------------------------------------------------------------
// Further cases
// ------------------------------------------------------------------------

#[test]
fn empty_queue_has_no_current_song_and_cannot_move() {
    let mut queue = create_queue();
    assert!(queue.get_current_song().is_none());
    assert!(!queue.move_current_to_next_song());
    assert!(!queue.move_current_to_previous_song());
    assert!(!queue.move_current_to("nothing".to_string()));
    assert_eq!(queue.len(), 0);
    assert!(queue.get_all_songs().is_empty());
}

#[test]
fn added_song_is_found_and_replaces_same_file() {
    let mut queue = create_queue();
    queue.add_song(create_song("b"));
    queue.add_song(create_song("a"));
    let mut retitled = create_song("b");
    retitled.title = Some("New title".to_string());
    queue.add_song(retitled);
    // the store keeps one song per file, in key order
    let all = queue.get_all_songs();
    assert_eq!(all.len(), 2);
    assert_eq!(all[0].file, "assets/music.a");
    assert_eq!(all[1].file, "assets/music.b");
    assert_eq!(all[1].title.as_deref(), Some("New title"));
    // the first added file is still the one that counts as current
    assert_eq!(current_file(&queue), "assets/music.b");
}

#[test]
fn previous_after_next_returns_to_the_same_song() {
    let mut queue = create_queue();
    for ext in ["mp3", "flac", "wav"] {
        queue.add_song(create_song(ext));
    }
    assert!(queue.move_current_to_next_song());
    assert_eq!(current_file(&queue), "assets/music.flac");
    assert!(queue.move_current_to_previous_song());
    assert_eq!(current_file(&queue), "assets/music.mp3");
    // the first song stays current when moving back from it
    assert!(queue.move_current_to_previous_song());
    assert_eq!(current_file(&queue), "assets/music.mp3");
}

#[test]
fn next_over_a_repeated_file_follows_its_first_occurrence() {
    let mut queue = create_queue();
    queue.add_song(create_song("mp3"));
    queue.add_song(create_song("flac"));
    queue.add_song(create_song("mp3"));
    // play order mp3, flac, mp3: from the second "mp3" the next is the
    // "flac" after the first occurrence
    assert!(queue.move_current_to_next_song());
    assert_eq!(queue.current_song_key().as_deref(), Some("assets/music.flac"));
    assert!(queue.move_current_to_next_song());
    assert_eq!(queue.current_song_key().as_deref(), Some("assets/music.mp3"));
    assert!(queue.move_current_to_next_song());
    assert_eq!(queue.current_song_key().as_deref(), Some("assets/music.flac"));
}

#[test]
fn moving_onto_the_explicit_current_key_clears_it() {
    let mut queue = create_queue();
    queue.add_song(create_song("a"));
    queue.add_song(create_song("a"));
    assert!(queue.move_current_to_next_song());
    assert_eq!(queue.current_song_key().as_deref(), Some("assets/music.a"));
    assert!(!queue.move_current_to_next_song());
    assert!(queue.current_song_key().is_none());
    assert_eq!(current_file(&queue), "assets/music.a");
}

#[test]
fn random_next_picks_a_song_of_the_play_order() {
    let mut queue = create_queue();
    for ext in ["a", "b", "c"] {
        queue.add_song(create_song(ext));
    }
    assert!(queue.toggle_random_next());
    assert!(queue.get_random_next());
    for _ in 0..20 {
        assert!(queue.move_current_to_next_song());
        let key = queue.current_song_key().unwrap();
        // never the last file of the play order
        assert!(key == "assets/music.a" || key == "assets/music.b");
    }
    assert!(!queue.toggle_random_next());
    assert!(!queue.get_random_next());
}

#[test]
fn move_to_unknown_id_keeps_current() {
    let mut queue = create_queue();
    queue.add_song(create_song("a"));
    queue.add_song(create_song("b"));
    assert!(queue.move_current_to(song_id("assets/music.b")));
    assert!(!queue.move_current_to("missing".to_string()));
    assert_eq!(current_file(&queue), "assets/music.b");
}

#[test]
fn replace_all_skips_missing_songs_and_keeps_current_key() {
    let mut queue = create_queue();
    queue.add_song(create_song("x"));
    queue.add_song(create_song("y"));
    assert!(queue.move_current_to_next_song());
    queue.replace_all(vec![None, Some(create_song("y")), None, Some(create_song("z"))]);
    assert_eq!(queue.len(), 2);
    assert_eq!(queue.current_song_key().as_deref(), Some("assets/music.y"));
    assert_eq!(current_file(&queue), "assets/music.y");
}

#[test]
fn page_starts_at_the_key_of_the_offset() {
    let mut queue = create_queue();
    for ext in ['d', 'b', 'a', 'c'] {
        queue.add_song(create_song(format!("{ext}").as_str()));
    }
    // play order d, b, a, c: offset 1 is "b", so the page runs b, c, d
    let (total, songs) = queue.get_queue_page(1, 10);
    assert_eq!(total, 4);
    let files: Vec<&str> = songs.iter().map(|s| s.file.as_str()).collect();
    assert_eq!(files, vec!["assets/music.b", "assets/music.c", "assets/music.d"]);
    // an offset past the end starts at the first added song
    let (_, songs) = queue.get_queue_page(99, 2);
    let files: Vec<&str> = songs.iter().map(|s| s.file.as_str()).collect();
    assert_eq!(files, vec!["assets/music.d"]);
}

#[test]
fn restore_orders_play_by_key_and_keeps_settings() {
    let mut queue = create_queue();
    queue.add_song(create_song("c"));
    queue.add_song(create_song("a"));
    queue.toggle_random_next();
    let restored = PlaybackQueue::restore(queue.get_all_songs(), queue.current_song_key(), queue.get_random_next());
    assert!(restored.get_random_next());
    assert!(restored.current_song_key().is_none());
    // with no explicit current key, the first file in key order counts
    assert_eq!(current_file(&restored), "assets/music.a");
    assert_eq!(restored.len(), 2);
}

#[test]
fn play_order_counts_every_addition() {
    let mut queue = create_queue();
    queue.add_song(create_song("a"));
    queue.add_song(create_song("a"));
    queue.add_song(create_song("b"));
    assert_eq!(queue.play_order_len(), 3);
    assert_eq!(queue.len(), 2);
}

#[test]
fn replace_all_keeps_the_last_song_given_for_a_file() {
    let mut queue = create_queue();
    let mut first = create_song("a");
    first.title = Some("first".to_string());
    let mut second = create_song("a");
    second.title = Some("second".to_string());
    queue.replace_all(vec![Some(first), Some(create_song("b")), Some(second)]);
    assert_eq!(queue.len(), 2);
    assert_eq!(queue.play_order_len(), 3);
    let current = queue.get_current_song().unwrap();
    assert_eq!(current.file, "assets/music.a");
    assert_eq!(current.title.as_deref(), Some("second"));
}

#[test]
fn stored_songs_come_in_byte_order_of_their_files() {
    let mut queue = create_queue();
    queue.add_song(create_song("mp3"));
    queue.add_song(create_song("wav"));
    queue.add_song(create_song("flac"));
    let files: Vec<String> = queue.get_all_songs().into_iter().map(|s| s.file).collect();
    assert_eq!(files, vec!["assets/music.flac", "assets/music.mp3", "assets/music.wav"]);
    queue.replace_all(vec![Some(create_song("b")), None, Some(create_song("a"))]);
    let files: Vec<String> = queue.get_all_songs().into_iter().map(|s| s.file).collect();
    assert_eq!(files, vec!["assets/music.a", "assets/music.b"]);
}
