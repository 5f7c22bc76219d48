use vstd::prelude::*;
use vstd::utf8::*;
use vstd::string::*;

use crate::song::{pair_views, Song, SongView};
use crate::text::{
    chars_equal, find_char, from_chars, index_of_char, lemma_index_of_char_contains,
    parse_u64_chars, parse_unsigned, remove_char, remove_char_chars, split_once, starts_with,
    starts_with_chars, sub_chars, to_chars, trim, trim_chars,
};

verus! {

// ------------------------------------------------------------------------
// The response as MPD sends it
// ------------------------------------------------------------------------

/// The line read at position `i`: reading past the end gives an empty line.
pub open spec fn line_at(lines: Seq<Seq<char>>, i: int) -> Seq<char> {
    if 0 <= i < lines.len() {
        lines[i]
    } else {
        Seq::empty()
    }
}

/// A header line that ends the header: shorter than 5 bytes or starting with "file".
pub open spec fn header_stop(l: Seq<char>) -> bool {
    (encode_utf8(l).len() as usize) < 5 || starts_with(l, "file"@)
}

/// The line on which the header scan stops: the first of the first 14 lines that
/// ends the header, else the 14th.
pub open spec fn header_index(lines: Seq<Seq<char>>, i: int) -> int
    decreases 13 - i,
{
    if i >= 13 || header_stop(line_at(lines, i)) {
        i
    } else {
        header_index(lines, i + 1)
    }
}

/// A line that starts a song record.
pub open spec fn is_record_start(l: Seq<char>) -> bool {
    starts_with(l, "file:"@)
}

/// The first "OK" line at or after `j`, or the number of lines.
pub open spec fn first_ok_from(lines: Seq<Seq<char>>, j: int) -> int
    decreases lines.len() - j,
{
    if j >= lines.len() || j < 0 {
        lines.len() as int
    } else if lines[j] == "OK\n"@ {
        j
    } else {
        first_ok_from(lines, j + 1)
    }
}

/// A field value as stored: quotes removed, then white space trimmed.
pub open spec fn field_value(v: Seq<char>) -> Seq<char> {
    trim(remove_char(v, '"'))
}

/// The tag list after setting `k` to `v`: the pair with key `k` gets the new
/// value, or the pair is appended.
pub open spec fn tag_insert(t: Seq<(Seq<char>, Seq<char>)>, k: Seq<char>, v: Seq<char>) -> Seq<(Seq<char>, Seq<char>)>
    decreases t.len(),
{
    if t.len() == 0 {
        seq![(k, v)]
    } else if t[0].0 == k {
        seq![(k, v)] + t.drop_first()
    } else {
        seq![t[0]] + tag_insert(t.drop_first(), k, v)
    }
}

/// The song after reading the field line with key `k` and value `v`.
pub open spec fn apply_field(s: SongView, k: Seq<char>, v: Seq<char>) -> SongView {
    if k == "Artist"@ {
        SongView { artist: Some(field_value(v)), ..s }
    } else if k == "Title"@ {
        SongView { title: Some(field_value(v)), ..s }
    } else if k == "Genre"@ {
        SongView { genre: Some(field_value(v)), ..s }
    } else if k == "Album"@ {
        SongView { album: Some(field_value(v)), ..s }
    } else if k == "Date"@ {
        SongView { date: Some(field_value(v)), ..s }
    } else if k == "Track"@ {
        SongView { track: Some(field_value(v)), ..s }
    } else if k == "Time"@ {
        SongView { time: Some(parse_unsigned(field_value(v), u64::MAX as int).unwrap() as u64), ..s }
    } else if k == "Id"@ {
        SongView { id: trim(v), ..s }
    } else if k == "Last-Modified"@ {
        SongView { last_modified: Some(field_value(v)), ..s }
    } else if k == "Performer"@ {
        SongView { performer: Some(field_value(v)), ..s }
    } else if k == "Composer"@ {
        SongView { composer: Some(field_value(v)), ..s }
    } else if k == "AlbumArtist"@ {
        SongView { album_artist: Some(field_value(v)), ..s }
    } else if k == "Disc"@ {
        SongView { disc: Some(field_value(v)), ..s }
    } else if k == "Label"@ {
        SongView { label: Some(field_value(v)), ..s }
    } else if k == "Range"@ || k == "Pos"@ || k == "duration"@ {
        s
    } else {
        SongView { tags: tag_insert(s.tags, k, field_value(v)), ..s }
    }
}

/// The song after reading line `l` of its record; lines without ':' are skipped.
pub open spec fn apply_line(s: SongView, l: Seq<char>) -> SongView {
    match split_once(l, ':') {
        None => s,
        Some(kv) => apply_field(s, kv.0, kv.1),
    }
}

/// The song of the record that starts at line `start` (a "file:" line), after
/// its lines up to (not including) `end`.
pub open spec fn record_song(lines: Seq<Seq<char>>, start: int, end: int) -> SongView
    decreases end - start,
{
    if end <= start + 1 {
        SongView::bare(Seq::empty(), field_value(split_once(line_at(lines, start), ':').unwrap().1))
    } else {
        apply_line(record_song(lines, start, end - 1), line_at(lines, end - 1))
    }
}

/// The next record start at or after `j`, before `ok`; `ok` if none.
pub open spec fn next_record(lines: Seq<Seq<char>>, j: int, ok: int) -> int
    decreases ok - j,
{
    if j >= ok {
        ok
    } else if is_record_start(line_at(lines, j)) {
        j
    } else {
        next_record(lines, j + 1, ok)
    }
}

/// The songs of the records from the one starting at `start` up to the "OK" line.
pub open spec fn songs_from(lines: Seq<Seq<char>>, start: int, ok: int) -> Seq<SongView>
    decreases ok - start,
{
    if start >= ok {
        Seq::empty()
    } else {
        let n = next_record(lines, start + 1, ok);
        if start < n && n < ok {
            seq![record_song(lines, start, n)] + songs_from(lines, n, ok)
        } else {
            seq![record_song(lines, start, n)]
        }
    }
}

/// The songs that a response lists.
pub open spec fn response_songs(lines: Seq<Seq<char>>) -> Seq<SongView> {
    let h = header_index(lines, 0);
    if is_record_start(line_at(lines, h)) {
        songs_from(lines, h, first_ok_from(lines, h + 1))
    } else {
        Seq::empty()
    }
}

/// A "Time" field whose value is not an unsigned number.
pub open spec fn bad_time_line(l: Seq<char>) -> bool {
    split_once(l, ':') matches Some(kv) && kv.0 == "Time"@ && parse_unsigned(field_value(kv.1), u64::MAX as int)
        is None
}

/// A response that is read to its end: when it lists songs, an "OK" line ends
/// them, and every "Time" field among them is a number.
pub open spec fn response_complete(lines: Seq<Seq<char>>) -> bool {
    let h = header_index(lines, 0);
    is_record_start(line_at(lines, h)) ==> {
        let ok = first_ok_from(lines, h + 1);
        &&& ok < lines.len()
        &&& forall|j: int| h < j < ok ==> !bad_time_line(#[trigger] lines[j])
    }
}

pub open spec fn line_views(lines: Seq<String>) -> Seq<Seq<char>> {
    lines.map_values(|l: String| l@)
}

// ------------------------------------------------------------------------
// Lemmas
// ------------------------------------------------------------------------

proof fn lemma_header_index_at(lines: Seq<Seq<char>>, i: int, h: int)
    requires
        0 <= i <= h <= 13,
        forall|k: int| i <= k < h ==> !header_stop(line_at(lines, k)),
        h == 13 || header_stop(line_at(lines, h)),
    ensures
        header_index(lines, i) == h,
    decreases h - i,
{
    if i < h {
        lemma_header_index_at(lines, i + 1, h);
    }
}

proof fn lemma_next_record_at(lines: Seq<Seq<char>>, j: int, ok: int, n: int)
    requires
        j <= n <= ok,
        forall|k: int| j <= k < n ==> !is_record_start(line_at(lines, k)),
        n < ok ==> is_record_start(line_at(lines, n)),
    ensures
        next_record(lines, j, ok) == n,
    decreases ok - j,
{
    if j < n {
        lemma_next_record_at(lines, j + 1, ok, n);
    }
}

proof fn lemma_first_ok_at(lines: Seq<Seq<char>>, j: int, o: int)
    requires
        0 <= j <= o < lines.len(),
        forall|k: int| j <= k < o ==> lines[k] != "OK\n"@,
        lines[o] == "OK\n"@,
    ensures
        first_ok_from(lines, j) == o,
    decreases o - j,
{
    if j < o {
        lemma_first_ok_at(lines, j + 1, o);
    }
}

proof fn lemma_first_ok_before(lines: Seq<Seq<char>>, j: int, k: int)
    requires
        0 <= j <= k < first_ok_from(lines, j),
    ensures
        lines[k] != "OK\n"@,
    decreases k - j,
{
    if j < k {
        lemma_first_ok_before(lines, j + 1, k);
    }
}

proof fn lemma_first_ok_is_ok(lines: Seq<Seq<char>>, j: int)
    requires
        0 <= j,
        first_ok_from(lines, j) < lines.len(),
    ensures
        lines[first_ok_from(lines, j)] == "OK\n"@,
        first_ok_from(lines, j) >= j,
    decreases lines.len() - j,
{
    if j < lines.len() && lines[j] != "OK\n"@ {
        lemma_first_ok_is_ok(lines, j + 1);
    }
}

proof fn lemma_tag_insert_at(t: Seq<(Seq<char>, Seq<char>)>, k: Seq<char>, v: Seq<char>, j: int)
    requires
        0 <= j <= t.len(),
        forall|i: int| 0 <= i < j ==> t[i].0 != k,
        j < t.len() ==> t[j].0 == k,
    ensures
        tag_insert(t, k, v) == (if j < t.len() { t.update(j, (k, v)) } else { t.push((k, v)) }),
    decreases t.len(),
{
    if t.len() == 0 {
        assert(seq![(k, v)] =~= t.push((k, v)));
    } else if j == 0 {
        assert(seq![(k, v)] + t.drop_first() =~= t.update(0, (k, v)));
    } else {
        let rest = t.drop_first();
        assert forall|i: int| 0 <= i < j - 1 implies rest[i].0 != k by {
            assert(rest[i] == t[i + 1]);
        }
        lemma_tag_insert_at(rest, k, v, j - 1);
        if j < t.len() {
            assert(seq![t[0]] + rest.update(j - 1, (k, v)) =~= t.update(j, (k, v)));
        } else {
            assert(seq![t[0]] + rest.push((k, v)) =~= t.push((k, v)));
        }
    }
}

// ------------------------------------------------------------------------
// Reading a response
// ------------------------------------------------------------------------

/// The characters of line `i`, or none past the end.
fn line_chars(lines: &[String], i: usize) -> (r: Vec<char>)
    ensures
        r@ == line_at(line_views(lines@), i as int),
{
    if i < lines.len() {
        to_chars(lines[i].as_str())
    } else {
        Vec::new()
    }
}

/// The length in bytes of line `i`, or 0 past the end.
fn line_byte_len(lines: &[String], i: usize) -> (r: usize)
    ensures
        r == encode_utf8(line_at(line_views(lines@), i as int)).len() as usize,
{
    if i < lines.len() {
        lines[i].as_str().len()
    } else {
        0
    }
}

/// The value of a field (see `field_value`), as a string.
pub fn to_opt_string(value: &[char]) -> (r: Option<String>)
    ensures
        r matches Some(s) && s@ == field_value(value@),
{
    let unquoted = remove_char_chars(value, '"');
    let trimmed = trim_chars(&unquoted);
    Some(from_chars(&trimmed))
}

/// Sets tag `k` to `v` (see `tag_insert`).
fn set_tag(tags: &mut Vec<(String, String)>, k: String, v: String)
    ensures
        pair_views(final(tags)@) == tag_insert(pair_views(old(tags)@), k@, v@),
{
    let ghost t = pair_views(tags@);
    let mut j: usize = 0;
    while j < tags.len()
        invariant
            j <= tags.len(),
            t == pair_views(tags@),
            tags@ == old(tags)@,
            forall|i: int| 0 <= i < j ==> t[i].0 != k@,
        decreases tags.len() - j,
    {
        if tags[j].0 == k {
            proof { lemma_tag_insert_at(t, k@, v@, j as int); }
            let ghost kv = k@;
            let ghost vv = v@;
            tags[j] = (k, v);
            assert(pair_views(tags@) =~= t.update(j as int, (kv, vv)));
            return ;
        }
        j = j + 1;
    }
    proof { lemma_tag_insert_at(t, k@, v@, j as int); }
    let ghost kv = k@;
    let ghost vv = v@;
    tags.push((k, v));
    assert(pair_views(tags@) =~= t.push((kv, vv)));
}

/// Whether `k` is the key `lit`.
fn key_is(k: &[char], lit: &str) -> (r: bool)
    ensures
        r == (k@ == lit@),
{
    let l = to_chars(lit);
    chars_equal(k, &l)
}

/// Reads one field line into `song` (see `apply_field`).
fn apply_field_exec(song: &mut Song, k: &[char], v: &[char])
    requires
        !(k@ == "Time"@ && parse_unsigned(field_value(v@), u64::MAX as int) is None),
    ensures
        final(song)@ == apply_field(old(song)@, k@, v@),
{
    let value = from_chars(&trim_chars(&remove_char_chars(v, '"')));
    if key_is(k, "Artist") {
        song.artist = Some(value);
    } else if key_is(k, "Title") {
        song.title = Some(value);
    } else if key_is(k, "Genre") {
        song.genre = Some(value);
    } else if key_is(k, "Album") {
        song.album = Some(value);
    } else if key_is(k, "Date") {
        song.date = Some(value);
    } else if key_is(k, "Track") {
        song.track = Some(value);
    } else if key_is(k, "Time") {
        let secs = parse_u64_chars(&trim_chars(&remove_char_chars(v, '"')));
        match secs {
            Some(t) => {
                song.time = Some(t);
            },
            None => {},
        }
    } else if key_is(k, "Id") {
        song.id = from_chars(&trim_chars(v));
    } else if key_is(k, "Last-Modified") {
        song.last_modified = Some(value);
    } else if key_is(k, "Performer") {
        song.performer = Some(value);
    } else if key_is(k, "Composer") {
        song.composer = Some(value);
    } else if key_is(k, "AlbumArtist") {
        song.album_artist = Some(value);
    } else if key_is(k, "Disc") {
        song.disc = Some(value);
    } else if key_is(k, "Label") {
        song.label = Some(value);
    } else if key_is(k, "Range") || key_is(k, "Pos") || key_is(k, "duration") {
    } else {
        let key = from_chars(k);
        set_tag(&mut song.tags, key, value);
    }
}

/// Reads one line of a record into `song` (see `apply_line`).
fn apply_line_exec(song: &mut Song, l: &[char])
    requires
        !bad_time_line(l@),
    ensures
        final(song)@ == apply_line(old(song)@, l@),
{
    proof { lemma_index_of_char_contains(l@, ':'); }
    match find_char(l, ':') {
        None => {},
        Some(i) => {
            assert(i < l.len());
            let k = sub_chars(l, 0, i);
            let v = sub_chars(l, i + 1, l.len());
            assert(k@ =~= l@.take(i as int));
            assert(v@ =~= l@.skip(i + 1));
            apply_field_exec(song, &k, &v);
        },
    }
}

/// From `j0` on, with no "OK" line before `j`, the first "OK" line is found from `j` on.
proof fn lemma_first_ok_skip(lines: Seq<Seq<char>>, j0: int, j: int)
    requires
        0 <= j0 <= j <= lines.len(),
        forall|k: int| j0 <= k < j ==> lines[k] != "OK\n"@,
    ensures
        first_ok_from(lines, j0) == first_ok_from(lines, j),
    decreases j - j0,
{
    if j0 < j {
        lemma_first_ok_skip(lines, j0 + 1, j);
    }
}

/// The first "OK" line from `j` on is not before `j`.
proof fn lemma_first_ok_at_least(lines: Seq<Seq<char>>, j: int)
    requires
        0 <= j <= lines.len(),
    ensures
        first_ok_from(lines, j) >= j,
    decreases lines.len() - j,
{
    if j < lines.len() && lines[j] != "OK\n"@ {
        lemma_first_ok_at_least(lines, j + 1);
    }
}

/// Whether line `l` is a "Time" field whose value is not a number (see `bad_time_line`).
fn is_bad_time_line(l: &[char]) -> (r: bool)
    ensures
        r == bad_time_line(l@),
{
    proof { lemma_index_of_char_contains(l@, ':'); }
    match find_char(l, ':') {
        None => false,
        Some(i) => {
            assert(i < l.len());
            let k = sub_chars(l, 0, i);
            let v = sub_chars(l, i + 1, l.len());
            assert(k@ =~= l@.take(i as int));
            assert(v@ =~= l@.skip(i + 1));
            if !key_is(&k, "Time") {
                return false;
            }
            let value = trim_chars(&remove_char_chars(&v, '"'));
            parse_u64_chars(&value).is_none()
        },
    }
}

/// Whether the lines hold a whole response (see `response_complete`): the
/// condition under which `mpd_response_to_songs` reads them.
pub fn response_is_complete(lines: &[String]) -> (r: bool)
    ensures
        r == response_complete(line_views(lines@)),
{
    let ghost ls = line_views(lines@);
    let mut h: usize = 0;
    while h < 13 && !(line_byte_len(lines, h) < 5 || starts_with_chars(&line_chars(lines, h), &to_chars("file")))
        invariant
            h <= 13,
            ls == line_views(lines@),
            forall|k: int| 0 <= k < h ==> !header_stop(line_at(ls, k)),
        decreases 13 - h,
    {
        h = h + 1;
    }
    proof { lemma_header_index_at(ls, 0, h as int); }
    let first = line_chars(lines, h);
    if !starts_with_chars(&first, &to_chars("file:")) {
        return true;
    }
    proof { reveal_strlit("file:"); }
    assert(h < lines.len());
    let mut j: usize = h + 1;
    while j < lines.len()
        invariant
            ls == line_views(lines@),
            h == header_index(ls, 0),
            is_record_start(line_at(ls, h as int)),
            h < j <= lines.len(),
            ls.len() == lines.len(),
            forall|k: int| h + 1 <= k < j ==> ls[k] != "OK\n"@ && !bad_time_line(#[trigger] ls[k]),
        decreases lines.len() - j,
    {
        let l = line_chars(lines, j);
        if key_is(&l, "OK\n") {
            proof {
                lemma_first_ok_skip(ls, h + 1, j as int);
            }
            return true;
        }
        if is_bad_time_line(&l) {
            proof {
                lemma_first_ok_skip(ls, h + 1, j + 1);
                lemma_first_ok_at_least(ls, j + 1);
            }
            return false;
        }
        j = j + 1;
    }
    proof {
        lemma_first_ok_skip(ls, h + 1, j as int);
    }
    false
}

/// The songs listed in an MPD response, given as the lines that reading it
/// yields (each with its line end): after a header of at most 14 lines, each
/// record starts with a "file:" line and runs to the next one; an "OK" line
/// ends the list.
pub fn mpd_response_to_songs(lines: &[String]) -> (r: Vec<Song>)
    requires
        response_complete(line_views(lines@)),
    ensures
        r@.map_values(|s: Song| s@) == response_songs(line_views(lines@)),
{
    let ghost ls = line_views(lines@);
    // skip the header
    let mut h: usize = 0;
    while h < 13 && !(line_byte_len(lines, h) < 5 || starts_with_chars(&line_chars(lines, h), &to_chars("file")))
        invariant
            h <= 13,
            ls == line_views(lines@),
            forall|k: int| 0 <= k < h ==> !header_stop(line_at(ls, k)),
        decreases 13 - h,
    {
        h = h + 1;
    }
    proof { lemma_header_index_at(ls, 0, h as int); }
    let mut result: Vec<Song> = Vec::new();
    let first = line_chars(lines, h);
    if !starts_with_chars(&first, &to_chars("file:")) {
        assert(result@.map_values(|s: Song| s@) =~= Seq::<SongView>::empty());
        return result;
    }
    let ghost ok = first_ok_from(ls, h + 1);
    proof { lemma_first_ok_is_ok(ls, h + 1); }
    let mut start: usize = h;
    loop
        invariant
            ls == line_views(lines@),
            response_complete(ls),
            h == header_index(ls, 0),
            is_record_start(line_at(ls, h as int)),
            ok == first_ok_from(ls, h + 1),
            h < ok < ls.len(),
            ls[ok] == "OK\n"@,
            h <= start < ok,
            is_record_start(line_at(ls, start as int)),
            result@.map_values(|s: Song| s@) + songs_from(ls, start as int, ok) == songs_from(ls, h as int, ok),
        decreases ok - start,
    {
        // the record's file line
        let fl = line_chars(lines, start);
        proof { lemma_index_of_char_contains(fl@, ':'); }
        assert(fl@.contains(':')) by {
            reveal_strlit("file:");
            assert(fl@.take(5) == "file:"@);
            assert(fl@.take(5)[4] == ':');
            assert(fl@[4] == ':');
        }
        let colon = find_char(&fl, ':').unwrap();
        let value = sub_chars(&fl, colon + 1, fl.len());
        assert(value@ =~= fl@.skip(colon + 1));
        let file = to_opt_string(&value).unwrap();
        let mut song = Song::with_file(String::new(), file);
        assert(song@ == record_song(ls, start as int, start + 1));
        // its field lines
        let n = lines.len();
        assert(ls.len() == n);
        let mut j: usize = start + 1;
        let mut at_ok = false;
        while j < lines.len()
            invariant_except_break
                !at_ok,
            invariant
                ls == line_views(lines@),
                response_complete(ls),
                h == header_index(ls, 0),
                is_record_start(line_at(ls, h as int)),
                ok == first_ok_from(ls, h + 1),
                h < ok < ls.len(),
                ls[ok] == "OK\n"@,
                h <= start < j <= ok,
                forall|k: int| start < k < j ==> !is_record_start(line_at(ls, k)),
                song@ == record_song(ls, start as int, j as int),
            ensures
                at_ok ==> j == ok,
                !at_ok ==> j < ok && is_record_start(line_at(ls, j as int)),
            decreases ok - j,
        {
            let l = line_chars(lines, j);
            if key_is(&l, "OK\n") {
                proof {
                    if j < ok {
                        lemma_first_ok_before(ls, h + 1, j as int);
                    }
                }
                at_ok = true;
                break ;
            }
            proof {
                if j == ok {
                    assert(l@ == "OK\n"@);
                }
            }
            if starts_with_chars(&l, &to_chars("file:")) {
                break ;
            }
            proof {
                assert(!bad_time_line(ls[j as int]));
            }
            apply_line_exec(&mut song, &l);
            j = j + 1;
        }
        proof {
            lemma_next_record_at(ls, start + 1, ok, j as int);
        }
        let ghost before = result@.map_values(|s: Song| s@);
        result.push(song);
        assert(result@.map_values(|s: Song| s@) =~= before.push(song@));
        if at_ok {
            assert(result@.map_values(|s: Song| s@) =~= before + songs_from(ls, start as int, ok));
            return result;
        }
        assert(songs_from(ls, start as int, ok) == seq![song@] + songs_from(ls, j as int, ok));
        assert(result@.map_values(|s: Song| s@) + songs_from(ls, j as int, ok) =~= before + songs_from(ls, start as int, ok));
        start = j;
    }
}

/// A field line of a record sets the song's field of that name to the line's
/// value with its quotes removed and its white space trimmed, and leaves every
/// other field as it was.
pub proof fn law_field_lines_set_their_field(s: SongView, v: Seq<char>)
    ensures
        apply_field(s, "Artist"@, v) == (SongView { artist: Some(trim(remove_char(v, '"'))), ..s }),
        apply_field(s, "Title"@, v) == (SongView { title: Some(trim(remove_char(v, '"'))), ..s }),
        apply_field(s, "Genre"@, v) == (SongView { genre: Some(trim(remove_char(v, '"'))), ..s }),
        apply_field(s, "Album"@, v) == (SongView { album: Some(trim(remove_char(v, '"'))), ..s }),
        apply_field(s, "Date"@, v) == (SongView { date: Some(trim(remove_char(v, '"'))), ..s }),
        apply_field(s, "Track"@, v) == (SongView { track: Some(trim(remove_char(v, '"'))), ..s }),
        apply_field(s, "Last-Modified"@, v) == (SongView { last_modified: Some(trim(remove_char(v, '"'))), ..s }),
        apply_field(s, "Performer"@, v) == (SongView { performer: Some(trim(remove_char(v, '"'))), ..s }),
        apply_field(s, "Composer"@, v) == (SongView { composer: Some(trim(remove_char(v, '"'))), ..s }),
        apply_field(s, "AlbumArtist"@, v) == (SongView { album_artist: Some(trim(remove_char(v, '"'))), ..s }),
        apply_field(s, "Disc"@, v) == (SongView { disc: Some(trim(remove_char(v, '"'))), ..s }),
        apply_field(s, "Label"@, v) == (SongView { label: Some(trim(remove_char(v, '"'))), ..s }),
        apply_field(s, "Id"@, v) == (SongView { id: trim(v), ..s }),
        apply_field(s, "Range"@, v) == s,
        apply_field(s, "Pos"@, v) == s,
        apply_field(s, "duration"@, v) == s,
{
    reveal_strlit("Artist");
    reveal_strlit("Title");
    reveal_strlit("Genre");
    reveal_strlit("Album");
    reveal_strlit("Date");
    reveal_strlit("Track");
    reveal_strlit("Time");
    reveal_strlit("Id");
    reveal_strlit("Last-Modified");
    reveal_strlit("Performer");
    reveal_strlit("Composer");
    reveal_strlit("AlbumArtist");
    reveal_strlit("Disc");
    reveal_strlit("Label");
    reveal_strlit("Range");
    reveal_strlit("Pos");
    reveal_strlit("duration");
    assert("Title"@.len() != "Artist"@.len());
    assert("Genre"@.len() != "Artist"@.len());
    assert("Genre"@[0] != "Title"@[0]);
    assert("Album"@.len() != "Artist"@.len());
    assert("Album"@[0] != "Title"@[0]);
    assert("Album"@[0] != "Genre"@[0]);
    assert("Date"@.len() != "Artist"@.len());
    assert("Date"@.len() != "Title"@.len());
    assert("Date"@.len() != "Genre"@.len());
    assert("Date"@.len() != "Album"@.len());
    assert("Track"@.len() != "Artist"@.len());
    assert("Track"@[1] != "Title"@[1]);
    assert("Track"@[0] != "Genre"@[0]);
    assert("Track"@[0] != "Album"@[0]);
    assert("Track"@.len() != "Date"@.len());
    assert("Time"@.len() != "Artist"@.len());
    assert("Time"@.len() != "Title"@.len());
    assert("Time"@.len() != "Genre"@.len());
    assert("Time"@.len() != "Album"@.len());
    assert("Time"@[0] != "Date"@[0]);
    assert("Time"@.len() != "Track"@.len());
    assert("Id"@.len() != "Artist"@.len());
    assert("Id"@.len() != "Title"@.len());
    assert("Id"@.len() != "Genre"@.len());
    assert("Id"@.len() != "Album"@.len());
    assert("Id"@.len() != "Date"@.len());
    assert("Id"@.len() != "Track"@.len());
    assert("Id"@.len() != "Time"@.len());
    assert("Last-Modified"@.len() != "Artist"@.len());
    assert("Last-Modified"@.len() != "Title"@.len());
    assert("Last-Modified"@.len() != "Genre"@.len());
    assert("Last-Modified"@.len() != "Album"@.len());
    assert("Last-Modified"@.len() != "Date"@.len());
    assert("Last-Modified"@.len() != "Track"@.len());
    assert("Last-Modified"@.len() != "Time"@.len());
    assert("Last-Modified"@.len() != "Id"@.len());
    assert("Performer"@.len() != "Artist"@.len());
    assert("Performer"@.len() != "Title"@.len());
    assert("Performer"@.len() != "Genre"@.len());
    assert("Performer"@.len() != "Album"@.len());
    assert("Performer"@.len() != "Date"@.len());
    assert("Performer"@.len() != "Track"@.len());
    assert("Performer"@.len() != "Time"@.len());
    assert("Performer"@.len() != "Id"@.len());
    assert("Performer"@.len() != "Last-Modified"@.len());
    assert("Composer"@.len() != "Artist"@.len());
    assert("Composer"@.len() != "Title"@.len());
    assert("Composer"@.len() != "Genre"@.len());
    assert("Composer"@.len() != "Album"@.len());
    assert("Composer"@.len() != "Date"@.len());
    assert("Composer"@.len() != "Track"@.len());
    assert("Composer"@.len() != "Time"@.len());
    assert("Composer"@.len() != "Id"@.len());
    assert("Composer"@.len() != "Last-Modified"@.len());
    assert("Composer"@.len() != "Performer"@.len());
    assert("AlbumArtist"@.len() != "Artist"@.len());
    assert("AlbumArtist"@.len() != "Title"@.len());
    assert("AlbumArtist"@.len() != "Genre"@.len());
    assert("AlbumArtist"@.len() != "Album"@.len());
    assert("AlbumArtist"@.len() != "Date"@.len());
    assert("AlbumArtist"@.len() != "Track"@.len());
    assert("AlbumArtist"@.len() != "Time"@.len());
    assert("AlbumArtist"@.len() != "Id"@.len());
    assert("AlbumArtist"@.len() != "Last-Modified"@.len());
    assert("AlbumArtist"@.len() != "Performer"@.len());
    assert("AlbumArtist"@.len() != "Composer"@.len());
    assert("Disc"@.len() != "Artist"@.len());
    assert("Disc"@.len() != "Title"@.len());
    assert("Disc"@.len() != "Genre"@.len());
    assert("Disc"@.len() != "Album"@.len());
    assert("Disc"@[1] != "Date"@[1]);
    assert("Disc"@.len() != "Track"@.len());
    assert("Disc"@[0] != "Time"@[0]);
    assert("Disc"@.len() != "Id"@.len());
    assert("Disc"@.len() != "Last-Modified"@.len());
    assert("Disc"@.len() != "Performer"@.len());
    assert("Disc"@.len() != "Composer"@.len());
    assert("Disc"@.len() != "AlbumArtist"@.len());
    assert("Label"@.len() != "Artist"@.len());
    assert("Label"@[0] != "Title"@[0]);
    assert("Label"@[0] != "Genre"@[0]);
    assert("Label"@[0] != "Album"@[0]);
    assert("Label"@.len() != "Date"@.len());
    assert("Label"@[0] != "Track"@[0]);
    assert("Label"@.len() != "Time"@.len());
    assert("Label"@.len() != "Id"@.len());
    assert("Label"@.len() != "Last-Modified"@.len());
    assert("Label"@.len() != "Performer"@.len());
    assert("Label"@.len() != "Composer"@.len());
    assert("Label"@.len() != "AlbumArtist"@.len());
    assert("Label"@.len() != "Disc"@.len());
    assert("Range"@.len() != "Artist"@.len());
    assert("Range"@[0] != "Title"@[0]);
    assert("Range"@[0] != "Genre"@[0]);
    assert("Range"@[0] != "Album"@[0]);
    assert("Range"@.len() != "Date"@.len());
    assert("Range"@[0] != "Track"@[0]);
    assert("Range"@.len() != "Time"@.len());
    assert("Range"@.len() != "Id"@.len());
    assert("Range"@.len() != "Last-Modified"@.len());
    assert("Range"@.len() != "Performer"@.len());
    assert("Range"@.len() != "Composer"@.len());
    assert("Range"@.len() != "AlbumArtist"@.len());
    assert("Range"@.len() != "Disc"@.len());
    assert("Range"@[0] != "Label"@[0]);
    assert("Pos"@.len() != "Artist"@.len());
    assert("Pos"@.len() != "Title"@.len());
    assert("Pos"@.len() != "Genre"@.len());
    assert("Pos"@.len() != "Album"@.len());
    assert("Pos"@.len() != "Date"@.len());
    assert("Pos"@.len() != "Track"@.len());
    assert("Pos"@.len() != "Time"@.len());
    assert("Pos"@.len() != "Id"@.len());
    assert("Pos"@.len() != "Last-Modified"@.len());
    assert("Pos"@.len() != "Performer"@.len());
    assert("Pos"@.len() != "Composer"@.len());
    assert("Pos"@.len() != "AlbumArtist"@.len());
    assert("Pos"@.len() != "Disc"@.len());
    assert("Pos"@.len() != "Label"@.len());
    assert("Pos"@.len() != "Range"@.len());
    assert("duration"@.len() != "Artist"@.len());
    assert("duration"@.len() != "Title"@.len());
    assert("duration"@.len() != "Genre"@.len());
    assert("duration"@.len() != "Album"@.len());
    assert("duration"@.len() != "Date"@.len());
    assert("duration"@.len() != "Track"@.len());
    assert("duration"@.len() != "Time"@.len());
    assert("duration"@.len() != "Id"@.len());
    assert("duration"@.len() != "Last-Modified"@.len());
    assert("duration"@.len() != "Performer"@.len());
    assert("duration"@[0] != "Composer"@[0]);
    assert("duration"@.len() != "AlbumArtist"@.len());
    assert("duration"@.len() != "Disc"@.len());
    assert("duration"@.len() != "Label"@.len());
    assert("duration"@.len() != "Range"@.len());
    assert("duration"@.len() != "Pos"@.len());
}

/// A field line whose key has no field of its own is kept among the song's
/// tags, under that key, with the line's cleaned value.
pub proof fn law_other_lines_become_tags(s: SongView, k: Seq<char>, v: Seq<char>)
    requires
        k != "Artist"@,
        k != "Title"@,
        k != "Genre"@,
        k != "Album"@,
        k != "Date"@,
        k != "Track"@,
        k != "Time"@,
        k != "Id"@,
        k != "Last-Modified"@,
        k != "Performer"@,
        k != "Composer"@,
        k != "AlbumArtist"@,
        k != "Disc"@,
        k != "Label"@,
        k != "Range"@,
        k != "Pos"@,
        k != "duration"@,
    ensures
        apply_field(s, k, v) == (SongView { tags: tag_insert(s.tags, k, trim(remove_char(v, '"'))), ..s }),
        exists|j: int| 0 <= j < apply_field(s, k, v).tags.len() && apply_field(s, k, v).tags[j] == (k, trim(remove_char(v, '"'))),
{
    assert(apply_field(s, k, v).tags == tag_insert(s.tags, k, trim(remove_char(v, '"'))));
    lemma_tag_insert_has(s.tags, k, trim(remove_char(v, '"')));
}

proof fn lemma_tag_insert_has(t: Seq<(Seq<char>, Seq<char>)>, k: Seq<char>, v: Seq<char>)
    ensures
        exists|j: int| 0 <= j < tag_insert(t, k, v).len() && tag_insert(t, k, v)[j] == (k, v),
    decreases t.len(),
{
    if t.len() == 0 || t[0].0 == k {
        assert(tag_insert(t, k, v)[0] == (k, v));
    } else {
        lemma_tag_insert_has(t.drop_first(), k, v);
        let j = choose|j: int| 0 <= j < tag_insert(t.drop_first(), k, v).len() && tag_insert(t.drop_first(), k, v)[j] == (k, v);
        assert(tag_insert(t, k, v)[j + 1] == (k, v));
    }
}

} // verus!
