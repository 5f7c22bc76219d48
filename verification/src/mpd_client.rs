use vstd::prelude::*;

use crate::song::{clone_opt_string, opt_view, pair_views, Song, SongView};
use crate::text::{
    decimal, format_decimal, from_chars, parse_u64_chars, parse_unsigned, replace_all, replace_all_chars, to_chars,
};

verus! {

/// What an MPD client library reports of a song: its file, title, place in
/// the queue and tags, in the order the server sent them.
pub struct MpdSong {
    pub file: String,
    pub title: Option<String>,
    /// The song's identifier in the server's queue, when it is queued.
    pub place_id: Option<u32>,
    pub tags: Vec<(String, String)>,
}

/// The state of the player.
#[allow(non_camel_case_types)]
pub enum PlayerState {
    STOPPED,
    PLAYING,
    PAUSED,
    ERROR(String),
}

/// The state of the MPD server's player.
pub enum MpdState {
    Stop,
    Play,
    Pause,
}

/// The value of the first tag named `key`.
pub open spec fn tag_value(tags: Seq<(Seq<char>, Seq<char>)>, key: Seq<char>) -> Option<Seq<char>>
    decreases tags.len(),
{
    if tags.len() == 0 {
        None
    } else if tags[0].0 == key {
        Some(tags[0].1)
    } else {
        tag_value(tags.drop_first(), key)
    }
}

proof fn lemma_tag_value_at(tags: Seq<(Seq<char>, Seq<char>)>, key: Seq<char>, j: int)
    requires
        0 <= j <= tags.len(),
        forall|i: int| 0 <= i < j ==> tags[i].0 != key,
        j < tags.len() ==> tags[j].0 == key,
    ensures
        tag_value(tags, key) == (if j < tags.len() { Some(tags[j].1) } else { None::<Seq<char>> }),
    decreases tags.len(),
{
    if tags.len() > 0 && j > 0 {
        let rest = tags.drop_first();
        assert forall|i: int| 0 <= i < j - 1 implies rest[i].0 != key by {
            assert(rest[i] == tags[i + 1]);
        }
        lemma_tag_value_at(rest, key, j - 1);
    }
}

/// The value of the song's first tag named `key`, if any.
pub fn tag_to_value(song: &MpdSong, key: &str) -> (r: Option<String>)
    ensures
        opt_view(r) == tag_value(pair_views(song.tags@), key@),
{
    let ghost t = pair_views(song.tags@);
    let k = key.to_owned();
    let mut i: usize = 0;
    while i < song.tags.len()
        invariant
            i <= song.tags.len(),
            t == pair_views(song.tags@),
            k@ == key@,
            forall|j: int| 0 <= j < i ==> t[j].0 != key@,
        decreases song.tags.len() - i,
    {
        if song.tags[i].0 == k {
            proof { lemma_tag_value_at(t, key@, i as int); }
            return Some(song.tags[i].1.clone());
        }
        i = i + 1;
    }
    proof { lemma_tag_value_at(t, key@, i as int); }
    None
}

/// The library's song for a song that MPD reports: its place in the queue is
/// its identifier, and the tags with a field of their own fill those fields.
pub open spec fn mapped_song(s: MpdSong) -> SongView {
    let tags = pair_views(s.tags@);
    SongView {
        id: match s.place_id {
            Some(p) => decimal(p as nat),
            None => Seq::empty(),
        },
        file: s.file@,
        title: opt_view(s.title),
        artist: tag_value(tags, "Artist"@),
        album: tag_value(tags, "Album"@),
        album_artist: tag_value(tags, "AlbumArtist"@),
        genre: tag_value(tags, "Genre"@),
        date: tag_value(tags, "Date"@),
        composer: tag_value(tags, "Composer"@),
        performer: tag_value(tags, "Performer"@),
        label: tag_value(tags, "Label"@),
        disc: tag_value(tags, "Disc"@),
        track: tag_value(tags, "Track"@),
        last_modified: tag_value(tags, "Last-Modified"@),
        time: match tag_value(tags, "Time"@) {
            Some(t) => Some(parse_unsigned(t, u64::MAX as int).unwrap() as u64),
            None => None,
        },
        tags: Seq::empty(),
        image_url: None,
        image_id: None,
    }
}

/// Converts a song that MPD reports into the library's song.
pub fn map_song(song: &MpdSong) -> (r: Song)
    requires
        tag_value(pair_views(song.tags@), "Time"@) matches Some(t) ==> parse_unsigned(t, u64::MAX as int) is Some,
    ensures
        r@ == mapped_song(*song),
{
    let id = match song.place_id {
        Some(p) => format_decimal(p as u64),
        None => String::new(),
    };
    let mut r = Song::with_file(id, song.file.clone());
    r.title = clone_opt_string(&song.title);
    r.album = tag_to_value(song, "Album");
    r.artist = tag_to_value(song, "Artist");
    r.genre = tag_to_value(song, "Genre");
    r.date = tag_to_value(song, "Date");
    r.album_artist = tag_to_value(song, "AlbumArtist");
    r.composer = tag_to_value(song, "Composer");
    r.disc = tag_to_value(song, "Disc");
    r.label = tag_to_value(song, "Label");
    r.last_modified = tag_to_value(song, "Last-Modified");
    r.performer = tag_to_value(song, "Performer");
    r.time = match tag_to_value(song, "Time") {
        Some(t) => parse_u64_chars(&to_chars(t.as_str())),
        None => None,
    };
    r.track = tag_to_value(song, "Track");
    r
}

/// The player state for the MPD player state.
pub fn map_state(mpd_state: MpdState) -> (r: PlayerState)
    ensures
        match mpd_state {
            MpdState::Stop => r is STOPPED,
            MpdState::Play => r is PLAYING,
            MpdState::Pause => r is PAUSED,
        },
{
    match mpd_state {
        MpdState::Stop => PlayerState::STOPPED,
        MpdState::Play => PlayerState::PLAYING,
        MpdState::Pause => PlayerState::PAUSED,
    }
}

/// The number of queue songs shown on one page.
pub const PAGE_SIZE: usize = 80;

/// Index of the first song with identifier `id`, or the number of songs.
pub open spec fn first_with_id(songs: Seq<SongView>, id: Seq<char>) -> int
    decreases songs.len(),
{
    if songs.len() == 0 {
        0
    } else if songs[0].id == id {
        0
    } else {
        first_with_id(songs.drop_first(), id) + 1
    }
}

/// The queue page shown for the current song: with a current song, the queue
/// from the first song with its identifier on, at most `PAGE_SIZE` songs; with
/// none, the whole queue.
pub open spec fn current_song_page_of(songs: Seq<SongView>, current_id: Option<Seq<char>>) -> Seq<SongView> {
    match current_id {
        None => songs,
        Some(id) => {
            let rest = songs.skip(first_with_id(songs, id));
            rest.take(if rest.len() < PAGE_SIZE { rest.len() as int } else { PAGE_SIZE as int })
        },
    }
}

proof fn lemma_first_with_id_at(songs: Seq<SongView>, id: Seq<char>, j: int)
    requires
        0 <= j <= songs.len(),
        forall|i: int| 0 <= i < j ==> songs[i].id != id,
        j < songs.len() ==> songs[j].id == id,
    ensures
        first_with_id(songs, id) == j,
    decreases songs.len(),
{
    if songs.len() > 0 && j > 0 {
        let rest = songs.drop_first();
        assert forall|i: int| 0 <= i < j - 1 implies rest[i].id != id by {
            assert(rest[i] == songs[i + 1]);
        }
        lemma_first_with_id_at(rest, id, j - 1);
    }
}

/// The queue page for the current song (see `current_song_page_of`).
pub fn current_song_page(songs: &[Song], current_id: Option<&String>) -> (r: Vec<Song>)
    ensures
        r@.map_values(|s: Song| s@) == current_song_page_of(
            songs@.map_values(|s: Song| s@),
            match current_id {
                Some(id) => Some(id@),
                None => None,
            },
        ),
{
    let ghost sv = songs@.map_values(|s: Song| s@);
    let mut start: usize = 0;
    match current_id {
        None => {
            start = 0;
        },
        Some(id) => {
            while start < songs.len() && songs[start].id != *id
                invariant
                    start <= songs.len(),
                    sv == songs@.map_values(|s: Song| s@),
                    forall|i: int| 0 <= i < start ==> sv[i].id != id@,
                decreases songs.len() - start,
            {
                start = start + 1;
            }
            proof { lemma_first_with_id_at(sv, id@, start as int); }
        },
    }
    let end: usize = match current_id {
        None => songs.len(),
        Some(_) => if songs.len() - start < PAGE_SIZE { songs.len() } else { start + PAGE_SIZE },
    };
    let mut r: Vec<Song> = Vec::new();
    let mut j: usize = start;
    while j < end
        invariant
            start <= j <= end <= songs.len(),
            sv == songs@.map_values(|s: Song| s@),
            r@.map_values(|s: Song| s@) == sv.subrange(start as int, j as int),
        decreases end - j,
    {
        let ghost before = r@.map_values(|s: Song| s@);
        r.push(songs[j].copy());
        assert(r@.map_values(|s: Song| s@) =~= before.push(sv[j as int]));
        assert(sv.subrange(start as int, j + 1) =~= sv.subrange(start as int, j as int).push(sv[j as int]));
        j = j + 1;
    }
    proof {
        match current_id {
            None => {
                assert(sv.subrange(0, sv.len() as int) =~= sv);
            },
            Some(id) => {
                let rest = sv.skip(start as int);
                assert(sv.subrange(start as int, end as int) =~= rest.take(
                    if rest.len() < PAGE_SIZE { rest.len() as int } else { PAGE_SIZE as int },
                ));
            },
        }
    }
    r
}

/// How many bytes a character takes in UTF-8.
pub open spec fn utf8_width(c: char) -> nat {
    if (c as u32) < 0x80 {
        1
    } else if (c as u32) < 0x800 {
        2
    } else if (c as u32) < 0x10000 {
        3
    } else {
        4
    }
}

/// The length in bytes of a text in UTF-8.
pub open spec fn utf8_len(s: Seq<char>) -> nat
    decreases s.len(),
{
    if s.len() == 0 {
        0
    } else {
        utf8_len(s.drop_last()) + utf8_width(s.last())
    }
}

/// Whether a search term is long enough to filter by: more than two bytes.
pub fn filters_by_term(term: &str) -> (r: bool)
    ensures
        r == (utf8_len(term@) > 2),
{
    let chars = to_chars(term);
    let mut n: usize = 0;
    let mut i: usize = 0;
    while i < chars.len()
        invariant
            chars@ == term@,
            i <= chars.len(),
            n == utf8_len(chars@.take(i as int)),
            n <= 2,
        decreases chars.len() - i,
    {
        let c = chars[i];
        let w: usize = if (c as u32) < 0x80 {
            1
        } else if (c as u32) < 0x800 {
            2
        } else if (c as u32) < 0x10000 {
            3
        } else {
            4
        };
        proof {
            assert(chars@.take(i + 1).drop_last() =~= chars@.take(i as int));
        }
        if n + w > 2 {
            proof { lemma_utf8_len_grows(chars@, (i + 1) as int); }
            return true;
        }
        n = n + w;
        i = i + 1;
    }
    proof { assert(chars@.take(i as int) =~= chars@); }
    false
}

proof fn lemma_utf8_len_grows(s: Seq<char>, k: int)
    requires
        0 <= k <= s.len(),
    ensures
        utf8_len(s.take(k)) <= utf8_len(s),
    decreases s.len() - k,
{
    if k < s.len() {
        lemma_utf8_len_grows(s, k + 1);
        assert(s.take(k + 1).drop_last() =~= s.take(k));
    } else {
        assert(s.take(k) =~= s);
    }
}

/// The songs whose flag is set, in their order.
pub open spec fn flagged_songs(songs: Seq<SongView>, flags: Seq<bool>) -> Seq<SongView>
    decreases songs.len(),
{
    if songs.len() == 0 {
        Seq::empty()
    } else {
        let before = flagged_songs(songs.drop_last(), flags);
        if flags[songs.len() - 1] {
            before.push(songs.last())
        } else {
            before
        }
    }
}

/// The songs a search for `term` finds: with a term longer than two bytes,
/// those whose text holds it (flagged in `matched`); else all of them.
pub open spec fn search_hits(songs: Seq<SongView>, matched: Seq<bool>, term: Seq<char>) -> Seq<SongView> {
    if utf8_len(term) > 2 {
        flagged_songs(songs, matched)
    } else {
        songs
    }
}

/// At most `PAGE_SIZE` songs from position `offset` on.
pub open spec fn page_from(songs: Seq<SongView>, offset: int) -> Seq<SongView> {
    if offset >= songs.len() {
        Seq::empty()
    } else {
        let rest = songs.skip(offset);
        rest.take(if rest.len() < PAGE_SIZE { rest.len() as int } else { PAGE_SIZE as int })
    }
}

/// One page of a list of songs, and where the next one starts.
pub struct SongPage {
    /// How many songs the whole list holds.
    pub total: usize,
    /// Where the next page starts.
    pub offset: usize,
    pub limit: usize,
    pub items: Vec<Song>,
}

/// The page at `offset` of the queue searched for `term`; `matched` says,
/// song by song, whether the song's text holds the term.
pub fn search_page(songs: &[Song], matched: &[bool], term: &str, offset: usize) -> (r: SongPage)
    requires
        matched@.len() == songs@.len(),
        offset + PAGE_SIZE <= usize::MAX,
    ensures
        r.total == search_hits(songs@.map_values(|s: Song| s@), matched@, term@).len(),
        r.offset == offset + PAGE_SIZE,
        r.limit == PAGE_SIZE,
        r.items@.map_values(|s: Song| s@) == page_from(
            search_hits(songs@.map_values(|s: Song| s@), matched@, term@),
            offset as int,
        ),
{
    let ghost sv = songs@.map_values(|s: Song| s@);
    let filter = filters_by_term(term);
    let mut hits: Vec<Song> = Vec::new();
    let mut i: usize = 0;
    while i < songs.len()
        invariant
            i <= songs.len(),
            matched@.len() == songs@.len(),
            sv == songs@.map_values(|s: Song| s@),
            hits@.map_values(|s: Song| s@) == if filter {
                flagged_songs(sv.take(i as int), matched@)
            } else {
                sv.take(i as int)
            },
        decreases songs.len() - i,
    {
        let ghost before = hits@.map_values(|s: Song| s@);
        proof {
            assert(sv.take(i + 1).drop_last() =~= sv.take(i as int));
            assert(sv.take(i + 1).last() == sv[i as int]);
        }
        if !filter || matched[i] {
            hits.push(songs[i].copy());
            assert(hits@.map_values(|s: Song| s@) =~= before.push(sv[i as int]));
        }
        proof {
            if !filter {
                assert(sv.take(i + 1) =~= sv.take(i as int).push(sv[i as int]));
            }
        }
        i = i + 1;
    }
    proof { assert(sv.take(i as int) =~= sv); }
    let ghost hv = hits@.map_values(|s: Song| s@);
    let total = hits.len();
    let mut items: Vec<Song> = Vec::new();
    if offset < total {
        let end: usize = if total - offset < PAGE_SIZE { total } else { offset + PAGE_SIZE };
        let mut j: usize = offset;
        while j < end
            invariant
                offset <= j <= end <= hits@.len(),
                hv == hits@.map_values(|s: Song| s@),
                items@.map_values(|s: Song| s@) == hv.subrange(offset as int, j as int),
            decreases end - j,
        {
            let ghost b = items@.map_values(|s: Song| s@);
            items.push(hits[j].copy());
            assert(items@.map_values(|s: Song| s@) =~= b.push(hv[j as int]));
            assert(hv.subrange(offset as int, j + 1) =~= hv.subrange(offset as int, j as int).push(hv[j as int]));
            j = j + 1;
        }
        proof {
            let rest = hv.skip(offset as int);
            assert(hv.subrange(offset as int, end as int) =~= rest.take(
                if rest.len() < PAGE_SIZE { rest.len() as int } else { PAGE_SIZE as int },
            ));
        }
    } else {
        proof { assert(items@.map_values(|s: Song| s@) =~= Seq::<SongView>::empty()); }
    }
    SongPage { total, offset: offset + PAGE_SIZE, limit: PAGE_SIZE, items }
}

proof fn lemma_flagged_songs_from(songs: Seq<SongView>, flags: Seq<bool>, j: int)
    requires
        0 <= j < flagged_songs(songs, flags).len(),
    ensures
        exists|i: int| 0 <= i < songs.len() && flags[i] && songs[i] == #[trigger] flagged_songs(songs, flags)[j],
        flagged_songs(songs, flags).len() <= songs.len(),
    decreases songs.len(),
{
    let d = songs.drop_last();
    lemma_flagged_songs_len(d, flags);
    if flags[songs.len() - 1] && j == flagged_songs(d, flags).len() {
        assert(songs[songs.len() - 1] == flagged_songs(songs, flags)[j]);
    } else {
        lemma_flagged_songs_from(d, flags, j);
        let i = choose|i: int| 0 <= i < d.len() && flags[i] && d[i] == #[trigger] flagged_songs(d, flags)[j];
        assert(songs[i] == d[i]);
    }
}

proof fn lemma_flagged_songs_len(songs: Seq<SongView>, flags: Seq<bool>)
    ensures
        flagged_songs(songs, flags).len() <= songs.len(),
    decreases songs.len(),
{
    if songs.len() > 0 {
        lemma_flagged_songs_len(songs.drop_last(), flags);
    }
}

/// A searched page holds at most `PAGE_SIZE` songs of the queue, each of them
/// one whose text holds the term when the term is long enough to filter by,
/// and its total is at most the queue's length.
pub proof fn law_search_page_holds_matches(songs: Seq<SongView>, matched: Seq<bool>, term: Seq<char>, offset: int, j: int)
    requires
        matched.len() == songs.len(),
        offset >= 0,
        0 <= j < page_from(search_hits(songs, matched, term), offset).len(),
    ensures
        page_from(search_hits(songs, matched, term), offset).len() <= PAGE_SIZE,
        search_hits(songs, matched, term).len() <= songs.len(),
        page_from(search_hits(songs, matched, term), offset)[j] == search_hits(songs, matched, term)[offset + j],
        exists|i: int|
            0 <= i < songs.len() && songs[i] == page_from(search_hits(songs, matched, term), offset)[j] && (utf8_len(term)
                > 2 ==> matched[i]),
{
    let h = search_hits(songs, matched, term);
    lemma_flagged_songs_len(songs, matched);
    if utf8_len(term) > 2 {
        lemma_flagged_songs_from(songs, matched, offset + j);
        let i = choose|i: int| 0 <= i < songs.len() && matched[i] && songs[i] == #[trigger] flagged_songs(songs, matched)[offset + j];
        assert(songs[i] == page_from(h, offset)[j]);
    } else {
        assert(songs[offset + j] == page_from(h, offset)[j]);
    }
}

/// With a current song in the queue, its page starts at the first song with
/// its identifier and goes on through the songs after it, at most
/// `PAGE_SIZE` of them.
pub proof fn law_current_page_starts_at_current(songs: Seq<SongView>, id: Seq<char>, k: int)
    requires
        0 <= k < songs.len(),
        songs[k].id == id,
        forall|i: int| 0 <= i < k ==> songs[i].id != id,
    ensures
        current_song_page_of(songs, Some(id)).len() > 0,
        current_song_page_of(songs, Some(id)).len() <= PAGE_SIZE,
        current_song_page_of(songs, Some(id))[0] == songs[k],
        forall|i: int|
            0 <= i < current_song_page_of(songs, Some(id)).len() ==> #[trigger] current_song_page_of(songs, Some(id))[i]
                == songs[k + i],
        current_song_page_of(songs, Some(id)).len() == if songs.len() - k < PAGE_SIZE {
            songs.len() - k
        } else {
            PAGE_SIZE as int
        },
{
    lemma_first_with_id_at(songs, id, k);
}

/// The MPD server configuration that the player installs; `{music_directory}`
/// and `{audio_device}` stand for the values filled in.
pub const MPD_CONF_FILE_TEMPLATE: &'static str = "\nplaylist_directory        \"/var/lib/mpd/playlists\"\ndb_file                   \"/var/lib/mpd/tag_cache\"\nstate_file                \"/var/lib/mpd/state\"\nsticker_file              \"/var/lib/mpd/sticker.sql\"\nmusic_directory           \"{music_directory}\"\n\nbind_to_address           \"0.0.0.0\"\nport                      \"6600\"\nlog_level                 \"default\"\nrestore_paused            \"yes\"\nauto_update               \"yes\"\nfollow_outside_symlinks   \"yes\"\nfollow_inside_symlinks    \"yes\"\nzeroconf_enabled          \"no\"\nfilesystem_charset        \"UTF-8\"\n\ninput {\n  plugin \"curl\"\n}\n\naudio_output {\n  type                    \"alsa\"\n  name                    \"audio device\"\n  device                  \"{audio_device}\"\n  mixer_type              \"none\"\n  replay_gain_handler     \"none\"\n}\n";

/// The configuration text with the music directory and the audio device
/// filled in (each placeholder replaced wherever it occurs).
pub open spec fn mpd_config_text(music_directory: Seq<char>, audio_device: Seq<char>) -> Seq<char> {
    replace_all(
        replace_all(MPD_CONF_FILE_TEMPLATE@, "{music_directory}"@, music_directory),
        "{audio_device}"@,
        audio_device,
    )
}

/// Fills the music directory and the audio device into the MPD configuration.
pub fn mpd_config(music_directory: &str, audio_device: &str) -> (r: String)
    ensures
        r@ == mpd_config_text(music_directory@, audio_device@),
{
    proof {
        reveal_strlit("{music_directory}");
        reveal_strlit("{audio_device}");
    }
    let with_dir = replace_all_chars(
        &to_chars(MPD_CONF_FILE_TEMPLATE),
        &to_chars("{music_directory}"),
        &to_chars(music_directory),
    );
    let with_device = replace_all_chars(&with_dir, &to_chars("{audio_device}"), &to_chars(audio_device));
    from_chars(&with_device)
}

/// The server's identifier of a queued song, when `text` is one (a `u32`).
pub fn parse_song_id(text: &str) -> (r: Option<u32>)
    ensures
        match parse_unsigned(text@, u32::MAX as int) {
            Some(v) => r == Some(v as u32),
            None => r is None,
        },
{
    match parse_u64_chars(&to_chars(text)) {
        Some(v) => if v <= 0xffff_ffff {
            Some(v as u32)
        } else {
            None
        },
        None => None,
    }
}

} // verus!
