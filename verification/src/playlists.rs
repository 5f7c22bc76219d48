use vstd::prelude::*;
use vstd::utf8::*;
use vstd::string::*;

use crate::queue::{files_of, lemma_file_key_injective};
use crate::song::{clone_opt_string, opt_view, Song, SongView};
use crate::text::{
    compare_bytes, from_chars, index_of_char, lemma_index_of_char_contains, lemma_lex_lt_asymmetric,
    lemma_lex_lt_transitive, lex_lt, push_str, starts_with, sub_chars, to_chars, find_char,
    starts_with_chars, KeyOrder, remove_all, remove_all_chars, eq_ignore_ascii_case, eq_ignore_ascii_case_chars,
};

verus! {

pub const BY_GENRE_PL_PREFIX: &'static str = "playlist_by_genre_";
pub const BY_DATE_PL_PREFIX: &'static str = "playlist_by_date_";
pub const BY_ARTIST_PL_PREFIX: &'static str = "playlist_by_artist_";
pub const BY_FOLDER_PL_PREFIX: &'static str = "playlist_by_folder_";
pub const SAVED_PL_PREFIX: &'static str = "playlist_saved_";

pub const CATEGORY_ID_BY_GENRE: &'static str = "category_by_genre";
pub const CATEGORY_ID_BY_DATE: &'static str = "category_by_date";
pub const CATEGORY_ID_BY_ARTIST: &'static str = "category_by_artist";
pub const CATEGORY_ID_BY_FOLDER: &'static str = "category_by_folder";

/// A group of dynamic playlists.
pub struct Category {
    pub id: String,
    pub name: String,
    pub icon: String,
}

/// A playlist as the player lists it.
pub struct Playlist {
    pub name: String,
    pub id: String,
    pub description: Option<String>,
    pub image: Option<String>,
    pub owner_name: Option<String>,
}

/// A page of the dynamic playlists of one category.
pub struct DynamicPlaylistsPage {
    pub category_id: String,
    pub playlists: Vec<Playlist>,
    pub offset: u32,
    pub limit: u32,
}

// ------------------------------------------------------------------------
// The model
// ------------------------------------------------------------------------

/// Whether `c` has the Unicode Alphabetic property (what `char::is_alphabetic` tests).
pub uninterp spec fn is_alphabetic(c: char) -> bool;

/// Whether `c` is alphabetic, by std's `char::is_alphabetic`. The result is
/// stated only as the name `is_alphabetic` of `c`: the Unicode tables are not
/// written out here.
#[verifier::external_body]
fn char_is_alphabetic(c: char) -> (r: bool)
    ensures
        r == is_alphabetic(c),
{
    c.is_alphabetic()
}

/// String order: the order of the UTF-8 bytes.
pub open spec fn str_lt(a: Seq<char>, b: Seq<char>) -> bool {
    lex_lt(encode_utf8(a), encode_utf8(b))
}

pub open spec fn strictly_ascending(s: Seq<Seq<char>>) -> bool {
    forall|i: int, j: int| 0 <= i < j < s.len() ==> str_lt(s[i], s[j])
}

pub open spec fn strictly_descending(s: Seq<Seq<char>>) -> bool {
    forall|i: int, j: int| 0 <= i < j < s.len() ==> str_lt(s[j], s[i])
}

/// `a` and `b` hold the same names.
pub open spec fn same_names(a: Seq<Seq<char>>, b: Seq<Seq<char>>) -> bool {
    forall|x: Seq<char>| a.contains(x) <==> b.contains(x)
}

/// The page of `s` that skipping `offset` and taking `limit` gives.
pub open spec fn page<T>(s: Seq<T>, offset: int, limit: int) -> Seq<T> {
    if offset >= s.len() {
        Seq::empty()
    } else if limit >= s.len() - offset {
        s.skip(offset)
    } else {
        s.skip(offset).take(limit)
    }
}

/// Begins with an alphabetic character.
pub open spec fn starts_alphabetic(s: Seq<char>) -> bool {
    s.len() > 0 && is_alphabetic(s[0])
}

/// The genres of the songs that begin with a letter, in order, repeats kept.
pub open spec fn genre_names(songs: Seq<SongView>) -> Seq<Seq<char>>
    decreases songs.len(),
{
    if songs.len() == 0 {
        Seq::empty()
    } else {
        let before = genre_names(songs.drop_last());
        match songs.last().genre {
            Some(g) => if starts_alphabetic(g) { before.push(g) } else { before },
            None => before,
        }
    }
}

/// The artists of the songs that begin with a letter, in order, repeats kept.
pub open spec fn artist_names(songs: Seq<SongView>) -> Seq<Seq<char>>
    decreases songs.len(),
{
    if songs.len() == 0 {
        Seq::empty()
    } else {
        let before = artist_names(songs.drop_last());
        match songs.last().artist {
            Some(a) => if starts_alphabetic(a) { before.push(a) } else { before },
            None => before,
        }
    }
}

/// The dates of the songs, in order, repeats kept.
pub open spec fn date_names(songs: Seq<SongView>) -> Seq<Seq<char>>
    decreases songs.len(),
{
    if songs.len() == 0 {
        Seq::empty()
    } else {
        let before = date_names(songs.drop_last());
        match songs.last().date {
            Some(d) => before.push(d),
            None => before,
        }
    }
}

/// Part `n` (from 0) of `s` split at `c`, or empty when `s` has fewer parts
/// (what `s.split(c).nth(n).unwrap_or_default()` gives).
pub open spec fn nth_part(s: Seq<char>, c: char, n: nat) -> Seq<char>
    decreases n,
{
    let i = index_of_char(s, c);
    if n == 0 {
        if i < 0 { s } else { s.take(i) }
    } else if i < 0 {
        Seq::empty()
    } else {
        nth_part(s.skip(i + 1), c, (n - 1) as nat)
    }
}

/// The folder at `depth` of each song's file, in order, each folder once.
pub open spec fn folder_names(songs: Seq<SongView>, depth: nat) -> Seq<Seq<char>>
    decreases songs.len(),
{
    if songs.len() == 0 {
        Seq::empty()
    } else {
        let before = folder_names(songs.drop_last(), depth);
        let f = nth_part(songs.last().file, '/', depth);
        if before.contains(f) { before } else { before.push(f) }
    }
}

/// `p` is the dynamic playlist named `name` with the given identifier prefix and
/// description prefix.
pub open spec fn is_dynamic_playlist(p: Playlist, id_prefix: Seq<char>, desc_prefix: Seq<char>, name: Seq<char>) -> bool {
    &&& p.name@ == name
    &&& p.id@ == id_prefix + name
    &&& opt_view(p.description) == Some(desc_prefix + name)
    &&& p.image is None
    &&& p.owner_name is None
}

/// `r` lists the dynamic playlists named by `names`, in order.
pub open spec fn playlists_named(r: Seq<Playlist>, id_prefix: Seq<char>, desc_prefix: Seq<char>, names: Seq<Seq<char>>) -> bool {
    &&& r.len() == names.len()
    &&& forall|i: int| 0 <= i < r.len() ==> is_dynamic_playlist(#[trigger] r[i], id_prefix, desc_prefix, names[i])
}

pub open spec fn string_views(v: Seq<String>) -> Seq<Seq<char>> {
    v.map_values(|s: String| s@)
}

pub open spec fn song_views(v: Seq<Song>) -> Seq<SongView> {
    v.map_values(|x: Song| x@)
}

// ------------------------------------------------------------------------
// Sorted name lists
// ------------------------------------------------------------------------

/// Adds `x` to the strictly ascending `v` unless it is there.
fn insert_name_sorted(v: &mut Vec<String>, x: String)
    requires
        strictly_ascending(string_views(old(v)@)),
    ensures
        strictly_ascending(string_views(final(v)@)),
        same_names(string_views(final(v)@), string_views(old(v)@).push(x@)),
{
    let ghost s = string_views(v@);
    let mut i: usize = 0;
    let mut found = false;
    while i < v.len()
        invariant_except_break
            !found,
            i <= v.len(),
            v@ == old(v)@,
            s == string_views(v@),
            forall|j: int| 0 <= j < i ==> str_lt(s[j], x@),
        ensures
            i <= v.len(),
            v@ == old(v)@,
            s == string_views(v@),
            forall|j: int| 0 <= j < i ==> str_lt(s[j], x@),
            found ==> i < v.len() && s[i as int] == x@,
            !found && i < v.len() ==> str_lt(x@, s[i as int]),
        decreases v.len() - i,
    {
        let c = compare_bytes(v[i].as_str().as_bytes(), x.as_str().as_bytes());
        match c {
            KeyOrder::Less => {
                i = i + 1;
            },
            KeyOrder::Equal => {
                proof { lemma_file_key_injective(s[i as int], x@); }
                found = true;
                break ;
            },
            KeyOrder::Greater => {
                break ;
            },
        }
    }
    if found {
        assert forall|y: Seq<char>| s.contains(y) <==> s.push(x@).contains(y) by {
            if s.push(x@).contains(y) {
                let k = choose|k: int| 0 <= k < s.len() + 1 && s.push(x@)[k] == y;
                if k == s.len() {
                    assert(s[i as int] == y);
                } else {
                    assert(s[k] == y);
                }
            }
            if s.contains(y) {
                let k = choose|k: int| 0 <= k < s.len() && s[k] == y;
                assert(s.push(x@)[k] == y);
            }
        }
        return ;
    }
    let ghost xv = x@;
    v.insert(i, x);
    let ghost t = string_views(v@);
    assert(t =~= s.insert(i as int, xv));
    assert forall|a: int, b: int| 0 <= a < b < t.len() implies str_lt(t[a], t[b]) by {
        if b > i {
            assert(t[b] == s[b - 1]);
            if b - 1 > i {
                assert(str_lt(s[i as int], s[b - 1]));
                lemma_lex_lt_transitive(encode_utf8(xv), encode_utf8(s[i as int]), encode_utf8(s[b - 1]));
            }
            assert(str_lt(xv, s[b - 1]));
            if a < i {
                assert(t[a] == s[a]);
                lemma_lex_lt_transitive(encode_utf8(s[a]), encode_utf8(xv), encode_utf8(s[b - 1]));
            } else if a > i {
                assert(t[a] == s[a - 1]);
                assert(str_lt(s[a - 1], s[b - 1]));
            }
        }
    }
    assert forall|y: Seq<char>| t.contains(y) <==> s.push(xv).contains(y) by {
        if s.push(xv).contains(y) {
            let k = choose|k: int| 0 <= k < s.len() + 1 && s.push(xv)[k] == y;
            if k == s.len() {
                assert(t[i as int] == y);
            } else if k < i {
                assert(t[k] == y);
            } else {
                assert(t[k + 1] == y);
            }
        }
        if t.contains(y) {
            let k = choose|k: int| 0 <= k < t.len() && t[k] == y;
            if k < i {
                assert(s.push(xv)[k] == y);
            } else if k == i {
                assert(s.push(xv)[s.len() as int] == y);
            } else {
                assert(s.push(xv)[k - 1] == y);
            }
        }
    }
}

/// `names`, sorted ascending, each name once.
fn sort_dedup_names(names: Vec<String>) -> (r: Vec<String>)
    ensures
        strictly_ascending(string_views(r@)),
        same_names(string_views(r@), string_views(names@)),
{
    let ghost ns = string_views(names@);
    let mut r: Vec<String> = Vec::new();
    let mut i: usize = 0;
    assert(string_views(r@) =~= Seq::<Seq<char>>::empty());
    while i < names.len()
        invariant
            i <= names.len(),
            ns == string_views(names@),
            strictly_ascending(string_views(r@)),
            same_names(string_views(r@), ns.take(i as int)),
        decreases names.len() - i,
    {
        let ghost before = string_views(r@);
        insert_name_sorted(&mut r, names[i].clone());
        proof {
            let t1 = ns.take(i + 1);
            let t0 = ns.take(i as int);
            assert(t1 =~= t0.push(ns[i as int]));
            assert forall|y: Seq<char>| string_views(r@).contains(y) <==> t1.contains(y) by {
                if before.push(ns[i as int]).contains(y) {
                    let k = choose|k: int| 0 <= k < before.len() + 1 && before.push(ns[i as int])[k] == y;
                    if k < before.len() {
                        assert(before.contains(y));
                        assert(t0.contains(y));
                        let m = choose|m: int| 0 <= m < t0.len() && t0[m] == y;
                        assert(t1[m] == y);
                    } else {
                        assert(t1[i as int] == y);
                    }
                }
                if t1.contains(y) {
                    let m = choose|m: int| 0 <= m < t1.len() && t1[m] == y;
                    if m < i {
                        assert(t0[m] == y);
                        assert(t0.contains(y));
                        assert(before.contains(y));
                        let k = choose|k: int| 0 <= k < before.len() && before[k] == y;
                        assert(before.push(ns[i as int])[k] == y);
                    } else {
                        assert(before.push(ns[i as int])[before.len() as int] == y);
                    }
                }
            }
        }
        i = i + 1;
    }
    assert(ns.take(i as int) =~= ns);
    r
}

/// `v` in reverse order.
fn reversed_names(v: Vec<String>) -> (r: Vec<String>)
    ensures
        string_views(r@) == string_views(v@).reverse(),
{
    let ghost vs = string_views(v@);
    let mut r: Vec<String> = Vec::new();
    let mut i: usize = v.len();
    while i > 0
        invariant
            i <= v.len(),
            vs == string_views(v@),
            string_views(r@) == vs.skip(i as int).reverse(),
        decreases i,
    {
        i = i - 1;
        let ghost before = string_views(r@);
        assert(before == vs.skip(i + 1).reverse());
        let c = v[i].clone();
        r.push(c);
        assert(string_views(r@) =~= before.push(vs[i as int]));
        assert(vs.skip(i + 1).reverse().push(vs[i as int]) =~= vs.skip(i as int).reverse());
    }
    assert(vs.skip(0) =~= vs);
    r
}

// ------------------------------------------------------------------------
// Building the playlists
// ------------------------------------------------------------------------

/// The playlist named `name` with the given identifier and description prefixes.
fn dynamic_playlist(id_prefix: &str, desc_prefix: &str, name: &String) -> (p: Playlist)
    ensures
        is_dynamic_playlist(p, id_prefix@, desc_prefix@, name@),
{
    let mut id = id_prefix.to_owned();
    push_str(&mut id, name.as_str());
    let mut desc = desc_prefix.to_owned();
    push_str(&mut desc, name.as_str());
    Playlist { name: name.clone(), id, description: Some(desc), image: None, owner_name: None }
}

/// The playlists for the page of `names` at `offset`, at most `limit` of them.
fn page_playlists(names: &Vec<String>, offset: u32, limit: u32, id_prefix: &str, desc_prefix: &str) -> (r: Vec<Playlist>)
    ensures
        playlists_named(r@, id_prefix@, desc_prefix@, page(string_views(names@), offset as int, limit as int)),
{
    let ghost ns = string_views(names@);
    let mut r: Vec<Playlist> = Vec::new();
    let mut i: usize = offset as usize;
    if i >= names.len() {
        return r;
    }
    let ghost pg = page(ns, offset as int, limit as int);
    assert(pg =~= ns.skip(offset as int).take(if (limit as int) < ns.len() - offset { limit as int } else { ns.len() - offset }));
    while i < names.len() && r.len() < limit as usize
        invariant
            offset <= i <= names.len(),
            r.len() == i - offset,
            r.len() <= limit,
            ns == string_views(names@),
            pg == page(ns, offset as int, limit as int),
            forall|k: int| 0 <= k < r.len() ==> is_dynamic_playlist(#[trigger] r@[k], id_prefix@, desc_prefix@, ns[offset + k]),
        decreases names.len() - i,
    {
        r.push(dynamic_playlist(id_prefix, desc_prefix, &names[i]));
        i = i + 1;
    }
    assert forall|k: int| 0 <= k < r.len() implies is_dynamic_playlist(#[trigger] r@[k], id_prefix@, desc_prefix@, pg[k]) by {
        assert(pg[k] == ns[offset + k]);
    }
    r
}

/// The dynamic playlists by genre: the genres that begin with a letter, sorted,
/// each once; the page at `offset` of at most `limit`.
pub fn get_playlists_by_genre(all_songs: &[Song], offset: u32, limit: u32) -> (r: Vec<Playlist>)
    ensures
        exists|names: Seq<Seq<char>>|
            strictly_ascending(names) && same_names(names, genre_names(song_views(all_songs@))) && playlists_named(
                r@,
                BY_GENRE_PL_PREFIX@,
                "Songs by genre "@,
                page(names, offset as int, limit as int),
            ),
{
    let mut genres: Vec<String> = Vec::new();
    let mut i: usize = 0;
    let ghost sv = song_views(all_songs@);
    assert(string_views(genres@) =~= genre_names(sv.take(0)));
    while i < all_songs.len()
        invariant
            i <= all_songs.len(),
            sv == song_views(all_songs@),
            string_views(genres@) == genre_names(sv.take(i as int)),
        decreases all_songs.len() - i,
    {
        assert(sv.take(i + 1).drop_last() =~= sv.take(i as int));
        assert(sv.take(i + 1).last() == all_songs@[i as int]@);
        if let Some(g) = &all_songs[i].genre {
            let cs = to_chars(g.as_str());
            if cs.len() > 0 && char_is_alphabetic(cs[0]) {
                genres.push(g.clone());
            }
        }
        i = i + 1;
    }
    assert(sv.take(i as int) =~= sv);
    let sorted = sort_dedup_names(genres);
    page_playlists(&sorted, offset, limit, BY_GENRE_PL_PREFIX, "Songs by genre ")
}

/// The dynamic playlists by artist: the artists that begin with a letter,
/// sorted, each once; the page at `offset` of at most `limit`.
pub fn get_playlists_by_artist(all_songs: &[Song], offset: u32, limit: u32) -> (r: Vec<Playlist>)
    ensures
        exists|names: Seq<Seq<char>>|
            strictly_ascending(names) && same_names(names, artist_names(song_views(all_songs@))) && playlists_named(
                r@,
                BY_ARTIST_PL_PREFIX@,
                "Songs by artist "@,
                page(names, offset as int, limit as int),
            ),
{
    let mut artists: Vec<String> = Vec::new();
    let mut i: usize = 0;
    let ghost sv = song_views(all_songs@);
    assert(string_views(artists@) =~= artist_names(sv.take(0)));
    while i < all_songs.len()
        invariant
            i <= all_songs.len(),
            sv == song_views(all_songs@),
            string_views(artists@) == artist_names(sv.take(i as int)),
        decreases all_songs.len() - i,
    {
        assert(sv.take(i + 1).drop_last() =~= sv.take(i as int));
        assert(sv.take(i + 1).last() == all_songs@[i as int]@);
        if let Some(a) = &all_songs[i].artist {
            let cs = to_chars(a.as_str());
            if cs.len() > 0 && char_is_alphabetic(cs[0]) {
                artists.push(a.clone());
            }
        }
        i = i + 1;
    }
    assert(sv.take(i as int) =~= sv);
    let sorted = sort_dedup_names(artists);
    page_playlists(&sorted, offset, limit, BY_ARTIST_PL_PREFIX, "Songs by artist ")
}

/// The dynamic playlists by date: the dates, newest (greatest) first, each
/// once; the page at `offset` of at most `limit`.
pub fn get_playlists_by_date(all_songs: &[Song], offset: u32, limit: u32) -> (r: Vec<Playlist>)
    ensures
        exists|names: Seq<Seq<char>>|
            strictly_descending(names) && same_names(names, date_names(song_views(all_songs@))) && playlists_named(
                r@,
                BY_DATE_PL_PREFIX@,
                "Songs by date "@,
                page(names, offset as int, limit as int),
            ),
{
    let mut dates: Vec<String> = Vec::new();
    let mut i: usize = 0;
    let ghost sv = song_views(all_songs@);
    assert(string_views(dates@) =~= date_names(sv.take(0)));
    while i < all_songs.len()
        invariant
            i <= all_songs.len(),
            sv == song_views(all_songs@),
            string_views(dates@) == date_names(sv.take(i as int)),
        decreases all_songs.len() - i,
    {
        assert(sv.take(i + 1).drop_last() =~= sv.take(i as int));
        assert(sv.take(i + 1).last() == all_songs@[i as int]@);
        if let Some(d) = &all_songs[i].date {
            dates.push(d.clone());
        }
        i = i + 1;
    }
    assert(sv.take(i as int) =~= sv);
    let sorted = sort_dedup_names(dates);
    let ghost asc = string_views(sorted@);
    let newest_first = reversed_names(sorted);
    proof {
        let d = string_views(newest_first@);
        assert forall|a: int, b: int| 0 <= a < b < d.len() implies str_lt(d[b], d[a]) by {
            assert(d[a] == asc[asc.len() - 1 - a]);
            assert(d[b] == asc[asc.len() - 1 - b]);
        }
        assert forall|y: Seq<char>| d.contains(y) <==> asc.contains(y) by {
            if d.contains(y) {
                let k = choose|k: int| 0 <= k < d.len() && d[k] == y;
                assert(asc[asc.len() - 1 - k] == y);
            }
            if asc.contains(y) {
                let k = choose|k: int| 0 <= k < asc.len() && asc[k] == y;
                assert(d[asc.len() - 1 - k] == y);
            }
        }
    }
    let r = page_playlists(&newest_first, offset, limit, BY_DATE_PL_PREFIX, "Songs by date ");
    proof {
        let d = string_views(newest_first@);
        let dn = date_names(song_views(all_songs@));
        assert forall|y: Seq<char>| d.contains(y) <==> dn.contains(y) by {
            assert(d.contains(y) <==> asc.contains(y));
            assert(asc.contains(y) <==> dn.contains(y));
        }
        assert(strictly_descending(d) && same_names(d, dn) && playlists_named(r@, BY_DATE_PL_PREFIX@, "Songs by date "@, page(d, offset as int, limit as int)));
    }
    r
}

/// Part `n` (from 0) of `s` split at `c`, or nothing when `s` has fewer parts.
pub fn nth_part_chars(s: &[char], c: char, n: usize) -> (r: Vec<char>)
    ensures
        r@ == nth_part(s@, c, n as nat),
{
    let mut cur: Vec<char> = sub_chars(s, 0, s.len());
    assert(cur@ =~= s@);
    let mut k: usize = n;
    while k > 0
        invariant
            nth_part(s@, c, n as nat) == nth_part(cur@, c, k as nat),
        decreases k,
    {
        match find_char(&cur, c) {
            None => {
                return Vec::new();
            },
            Some(i) => {
                assert(i < cur.len());
                let rest = sub_chars(&cur, i + 1, cur.len());
                assert(rest@ =~= cur@.skip(i + 1));
                cur = rest;
                k = k - 1;
            },
        }
    }
    match find_char(&cur, c) {
        None => cur,
        Some(i) => {
            let r = sub_chars(&cur, 0, i);
            assert(r@ =~= cur@.take(i as int));
            r
        },
    }
}

/// Whether `v` holds a string equal to `x`.
fn contains_name(v: &Vec<String>, x: &String) -> (r: bool)
    ensures
        r == string_views(v@).contains(x@),
{
    let mut i: usize = 0;
    while i < v.len()
        invariant
            i <= v.len(),
            forall|k: int| 0 <= k < i ==> string_views(v@)[k] != x@,
        decreases v.len() - i,
    {
        if v[i] == *x {
            assert(string_views(v@)[i as int] == x@);
            return true;
        }
        i = i + 1;
    }
    false
}

/// The dynamic playlists by folder: the folder at `depth` of each song's file,
/// each once, in the order they first occur; the page at `offset` of at most
/// `limit`.
pub fn get_playlists_by_folder(all_songs: &[Song], offset: u32, limit: u32, depth: usize) -> (r: Vec<Playlist>)
    ensures
        playlists_named(
            r@,
            BY_FOLDER_PL_PREFIX@,
            "Songs by dir "@,
            page(folder_names(song_views(all_songs@), depth as nat), offset as int, limit as int),
        ),
{
    let mut folders: Vec<String> = Vec::new();
    let mut i: usize = 0;
    let ghost sv = song_views(all_songs@);
    assert(string_views(folders@) =~= folder_names(sv.take(0), depth as nat));
    while i < all_songs.len()
        invariant
            i <= all_songs.len(),
            sv == song_views(all_songs@),
            string_views(folders@) == folder_names(sv.take(i as int), depth as nat),
        decreases all_songs.len() - i,
    {
        assert(sv.take(i + 1).drop_last() =~= sv.take(i as int));
        assert(sv.take(i + 1).last() == all_songs@[i as int]@);
        let f = from_chars(&nth_part_chars(&to_chars(all_songs[i].file.as_str()), '/', depth));
        if !contains_name(&folders, &f) {
            let ghost before = string_views(folders@);
            folders.push(f);
            assert(string_views(folders@) =~= before.push(f@));
        }
        i = i + 1;
    }
    assert(sv.take(i as int) =~= sv);
    page_playlists(&folders, offset, limit, BY_FOLDER_PL_PREFIX, "Songs by dir ")
}

/// The genre playlists page: see `get_playlists_by_genre`.
pub open spec fn genre_page(r: Seq<Playlist>, songs: Seq<SongView>, offset: u32, limit: u32) -> bool {
    exists|names: Seq<Seq<char>>|
        strictly_ascending(names) && same_names(names, genre_names(songs)) && playlists_named(
            r,
            BY_GENRE_PL_PREFIX@,
            "Songs by genre "@,
            page(names, offset as int, limit as int),
        )
}

/// The artist playlists page: see `get_playlists_by_artist`.
pub open spec fn artist_page(r: Seq<Playlist>, songs: Seq<SongView>, offset: u32, limit: u32) -> bool {
    exists|names: Seq<Seq<char>>|
        strictly_ascending(names) && same_names(names, artist_names(songs)) && playlists_named(
            r,
            BY_ARTIST_PL_PREFIX@,
            "Songs by artist "@,
            page(names, offset as int, limit as int),
        )
}

/// The date playlists page: see `get_playlists_by_date`.
pub open spec fn date_page(r: Seq<Playlist>, songs: Seq<SongView>, offset: u32, limit: u32) -> bool {
    exists|names: Seq<Seq<char>>|
        strictly_descending(names) && same_names(names, date_names(songs)) && playlists_named(
            r,
            BY_DATE_PL_PREFIX@,
            "Songs by date "@,
            page(names, offset as int, limit as int),
        )
}

/// One of the four category identifiers.
pub open spec fn known_category(id: Seq<char>) -> bool {
    id == CATEGORY_ID_BY_ARTIST@ || id == CATEGORY_ID_BY_DATE@ || id == CATEGORY_ID_BY_GENRE@ || id
        == CATEGORY_ID_BY_FOLDER@
}

/// The page of dynamic playlists for category `id`.
pub open spec fn category_page_ok(
    p: DynamicPlaylistsPage,
    id: Seq<char>,
    songs: Seq<SongView>,
    offset: u32,
    limit: u32,
    depth: usize,
) -> bool {
    &&& p.offset == offset
    &&& p.limit == limit
    &&& p.category_id@ == id
    &&& if id == CATEGORY_ID_BY_ARTIST@ {
        artist_page(p.playlists@, songs, offset, limit)
    } else if id == CATEGORY_ID_BY_DATE@ {
        date_page(p.playlists@, songs, offset, limit)
    } else if id == CATEGORY_ID_BY_GENRE@ {
        genre_page(p.playlists@, songs, offset, limit)
    } else {
        playlists_named(
            p.playlists@,
            BY_FOLDER_PL_PREFIX@,
            "Songs by dir "@,
            page(folder_names(songs, depth as nat), offset as int, limit as int),
        )
    }
}

/// For each requested category, the page of its dynamic playlists.
pub fn get_dynamic_playlists(
    category_ids: Vec<String>,
    all_songs: &[Song],
    offset: u32,
    limit: u32,
    by_folder_depth: usize,
) -> (r: Vec<DynamicPlaylistsPage>)
    requires
        forall|i: int| 0 <= i < category_ids@.len() ==> known_category(#[trigger] category_ids@[i]@),
    ensures
        r@.len() == category_ids@.len(),
        forall|i: int|
            0 <= i < r@.len() ==> category_page_ok(
                #[trigger] r@[i],
                category_ids@[i]@,
                song_views(all_songs@),
                offset,
                limit,
                by_folder_depth,
            ),
{
    let mut result: Vec<DynamicPlaylistsPage> = Vec::new();
    let mut i: usize = 0;
    while i < category_ids.len()
        invariant
            i <= category_ids.len(),
            result@.len() == i,
            forall|k: int| 0 <= k < category_ids@.len() ==> known_category(#[trigger] category_ids@[k]@),
            forall|k: int|
                0 <= k < i ==> category_page_ok(
                    #[trigger] result@[k],
                    category_ids@[k]@,
                    song_views(all_songs@),
                    offset,
                    limit,
                    by_folder_depth,
                ),
        decreases category_ids.len() - i,
    {
        let id = &category_ids[i];
        assert(known_category(category_ids@[i as int]@));
        let p = if *id == CATEGORY_ID_BY_ARTIST.to_owned() {
            DynamicPlaylistsPage {
                category_id: CATEGORY_ID_BY_ARTIST.to_owned(),
                playlists: get_playlists_by_artist(all_songs, offset, limit),
                offset,
                limit,
            }
        } else if *id == CATEGORY_ID_BY_DATE.to_owned() {
            DynamicPlaylistsPage {
                category_id: CATEGORY_ID_BY_DATE.to_owned(),
                playlists: get_playlists_by_date(all_songs, offset, limit),
                offset,
                limit,
            }
        } else if *id == CATEGORY_ID_BY_GENRE.to_owned() {
            DynamicPlaylistsPage {
                category_id: CATEGORY_ID_BY_GENRE.to_owned(),
                playlists: get_playlists_by_genre(all_songs, offset, limit),
                offset,
                limit,
            }
        } else {
            DynamicPlaylistsPage {
                category_id: CATEGORY_ID_BY_FOLDER.to_owned(),
                playlists: get_playlists_by_folder(all_songs, offset, limit, by_folder_depth),
                offset,
                limit,
            }
        };
        result.push(p);
        i = i + 1;
    }
    result
}

/// The four categories of dynamic playlists.
pub fn get_playlist_categories() -> (r: Vec<Category>)
    ensures
        r@.len() == 4,
        r@[0].id@ == CATEGORY_ID_BY_ARTIST@ && r@[0].name@ == "By Artist"@ && r@[0].icon@.len() == 0,
        r@[1].id@ == CATEGORY_ID_BY_DATE@ && r@[1].name@ == "By Date"@ && r@[1].icon@.len() == 0,
        r@[2].id@ == CATEGORY_ID_BY_GENRE@ && r@[2].name@ == "By Genre"@ && r@[2].icon@.len() == 0,
        r@[3].id@ == CATEGORY_ID_BY_FOLDER@ && r@[3].name@ == "By Directory"@ && r@[3].icon@.len() == 0,
{
    let mut r: Vec<Category> = Vec::new();
    r.push(Category { id: CATEGORY_ID_BY_ARTIST.to_owned(), name: "By Artist".to_owned(), icon: String::new() });
    r.push(Category { id: CATEGORY_ID_BY_DATE.to_owned(), name: "By Date".to_owned(), icon: String::new() });
    r.push(Category { id: CATEGORY_ID_BY_GENRE.to_owned(), name: "By Genre".to_owned(), icon: String::new() });
    r.push(Category { id: CATEGORY_ID_BY_FOLDER.to_owned(), name: "By Directory".to_owned(), icon: String::new() });
    r
}

/// Which songs a playlist identifier names.
pub enum PlaylistQuery {
    /// A playlist saved by name.
    Saved(String),
    ByGenre(String),
    ByArtist(String),
    ByDate(String),
    ByFolder(String),
    Unknown,
}

/// `p` is the saved playlist named `name`.
pub open spec fn is_saved_playlist(p: Playlist, name: Seq<char>) -> bool {
    &&& p.name@ == name
    &&& p.id@ == SAVED_PL_PREFIX@ + name
    &&& p.description is None
    &&& p.image is None
    &&& p.owner_name is None
}

/// The playlists saved on the server under the given names, in order.
pub fn saved_playlists(names: &[String]) -> (r: Vec<Playlist>)
    ensures
        r@.len() == names@.len(),
        forall|i: int| 0 <= i < r@.len() ==> is_saved_playlist(#[trigger] r@[i], names@[i]@),
{
    let mut r: Vec<Playlist> = Vec::new();
    let mut i: usize = 0;
    while i < names.len()
        invariant
            i <= names.len(),
            r@.len() == i,
            forall|k: int| 0 <= k < i ==> is_saved_playlist(#[trigger] r@[k], names@[k]@),
        decreases names.len() - i,
    {
        let mut id = SAVED_PL_PREFIX.to_owned();
        push_str(&mut id, names[i].as_str());
        r.push(Playlist { name: names[i].clone(), id, description: None, image: None, owner_name: None });
        i = i + 1;
    }
    r
}

/// The folder playlists look at the folder right below the top one.
pub const BY_FOLDER_DEPTH: usize = 1;

/// What a playlist identifier names: its prefix decides the kind, and the
/// identifier with every occurrence of the prefix removed is the name.
pub open spec fn query_ok(id: Seq<char>, q: PlaylistQuery) -> bool {
    if starts_with(id, SAVED_PL_PREFIX@) {
        q matches PlaylistQuery::Saved(n) && n@ == remove_all(id, SAVED_PL_PREFIX@)
    } else if starts_with(id, BY_GENRE_PL_PREFIX@) {
        q matches PlaylistQuery::ByGenre(n) && n@ == remove_all(id, BY_GENRE_PL_PREFIX@)
    } else if starts_with(id, BY_ARTIST_PL_PREFIX@) {
        q matches PlaylistQuery::ByArtist(n) && n@ == remove_all(id, BY_ARTIST_PL_PREFIX@)
    } else if starts_with(id, BY_DATE_PL_PREFIX@) {
        q matches PlaylistQuery::ByDate(n) && n@ == remove_all(id, BY_DATE_PL_PREFIX@)
    } else if starts_with(id, BY_FOLDER_PL_PREFIX@) {
        q matches PlaylistQuery::ByFolder(n) && n@ == remove_all(id, BY_FOLDER_PL_PREFIX@)
    } else {
        q is Unknown
    }
}

fn prefix_of(id: &Vec<char>, prefix: &str) -> (r: Option<String>)
    requires
        prefix@.len() > 0,
    ensures
        match r {
            Some(n) => starts_with(id@, prefix@) && n@ == remove_all(id@, prefix@),
            None => !starts_with(id@, prefix@),
        },
{
    let p = to_chars(prefix);
    if starts_with_chars(id, &p) {
        Some(from_chars(&remove_all_chars(id, &p)))
    } else {
        None
    }
}

/// Classifies a playlist identifier (see `query_ok`).
pub fn classify_playlist_id(playlist_id: &str) -> (r: PlaylistQuery)
    ensures
        query_ok(playlist_id@, r),
{
    let id = to_chars(playlist_id);
    proof {
        reveal_strlit("playlist_saved_");
        reveal_strlit("playlist_by_genre_");
        reveal_strlit("playlist_by_artist_");
        reveal_strlit("playlist_by_date_");
        reveal_strlit("playlist_by_folder_");
    }
    if let Some(n) = prefix_of(&id, SAVED_PL_PREFIX) {
        PlaylistQuery::Saved(n)
    } else if let Some(n) = prefix_of(&id, BY_GENRE_PL_PREFIX) {
        PlaylistQuery::ByGenre(n)
    } else if let Some(n) = prefix_of(&id, BY_ARTIST_PL_PREFIX) {
        PlaylistQuery::ByArtist(n)
    } else if let Some(n) = prefix_of(&id, BY_DATE_PL_PREFIX) {
        PlaylistQuery::ByDate(n)
    } else if let Some(n) = prefix_of(&id, BY_FOLDER_PL_PREFIX) {
        PlaylistQuery::ByFolder(n)
    } else {
        PlaylistQuery::Unknown
    }
}

/// Whether the library song `s` belongs to the playlist of `q`.
pub open spec fn query_matches(q: PlaylistQuery, s: SongView) -> bool {
    match q {
        PlaylistQuery::ByGenre(n) => s.genre == Some(n@),
        PlaylistQuery::ByArtist(n) => s.artist == Some(n@),
        PlaylistQuery::ByDate(n) => s.date == Some(n@),
        PlaylistQuery::ByFolder(n) => s.file.contains('/') && nth_part(s.file, '/', BY_FOLDER_DEPTH as nat) == n@,
        _ => false,
    }
}

pub open spec fn matches_query(q: PlaylistQuery) -> spec_fn(SongView) -> bool {
    |s: SongView| query_matches(q, s)
}

/// At most this many songs of a library playlist are listed.
pub const PLAYLIST_ITEMS_LIMIT: usize = 100;

fn song_matches(q: &PlaylistQuery, song: &Song) -> (r: bool)
    ensures
        r == query_matches(*q, song@),
{
    match q {
        PlaylistQuery::ByGenre(n) => match &song.genre {
            Some(g) => *g == *n,
            None => false,
        },
        PlaylistQuery::ByArtist(n) => match &song.artist {
            Some(a) => *a == *n,
            None => false,
        },
        PlaylistQuery::ByDate(n) => match &song.date {
            Some(d) => *d == *n,
            None => false,
        },
        PlaylistQuery::ByFolder(n) => {
            let f = to_chars(song.file.as_str());
            proof { lemma_index_of_char_contains(f@, '/'); }
            match find_char(&f, '/') {
                None => false,
                Some(_) => {
                    let part = from_chars(&nth_part_chars(&f, '/', BY_FOLDER_DEPTH));
                    part == *n
                },
            }
        },
        _ => false,
    }
}

/// The first (at most 100) library songs of the playlist that `q` names; none
/// for saved playlists, which the server keeps, and unknown identifiers.
pub fn get_playlist_items_from_library(q: &PlaylistQuery, all_songs: &[Song]) -> (r: Vec<Song>)
    ensures
        ({
            let f = song_views(all_songs@).filter(matches_query(*q));
            song_views(r@) == f.take(if f.len() < 100 { f.len() as int } else { 100 })
        }),
{
    let ghost sv = song_views(all_songs@);
    let mut r: Vec<Song> = Vec::new();
    let mut i: usize = 0;
    assert(sv.take(0).filter(matches_query(*q)) =~= Seq::<SongView>::empty()) by {
        reveal_with_fuel(Seq::<_>::filter, 1);
    }
    while i < all_songs.len() && r.len() < PLAYLIST_ITEMS_LIMIT
        invariant
            i <= all_songs.len(),
            sv == song_views(all_songs@),
            r.len() <= 100,
            song_views(r@) == sv.take(i as int).filter(matches_query(*q)),
        decreases all_songs.len() - i,
    {
        proof {
            assert(sv.take(i + 1) =~= sv.take(i as int).push(sv[i as int]));
            sv.take(i as int).lemma_filter_push(sv[i as int], matches_query(*q));
        }
        if song_matches(q, &all_songs[i]) {
            let ghost before = song_views(r@);
            r.push(all_songs[i].copy());
            assert(song_views(r@) =~= before.push(all_songs@[i as int]@));
        }
        i = i + 1;
    }
    proof {
        let f = sv.filter(matches_query(*q));
        let fi = sv.take(i as int).filter(matches_query(*q));
        if i == all_songs.len() {
            assert(sv.take(i as int) =~= sv);
        } else {
            // the first 100 matches already lie in the scanned part
            assert(sv =~= sv.take(i as int) + sv.skip(i as int));
            Seq::filter_distributes_over_add(sv.take(i as int), sv.skip(i as int), matches_query(*q));
            assert(f.take(100) =~= fi);
        }
    }
    r
}

/// The files of the library songs whose folder below the top one equals
/// `folder` but for the case of ASCII letters (a song with no such folder
/// counts as being in the folder "").
pub fn files_in_folder_ignore_case(folder: &str, all_songs: &[Song]) -> (r: Vec<String>)
    ensures
        string_views(r@) == files_of(song_views(all_songs@).filter(in_folder_ignore_case(folder@))),
{
    let fc = to_chars(folder);
    let ghost sv = song_views(all_songs@);
    let ghost pred = in_folder_ignore_case(folder@);
    let mut r: Vec<String> = Vec::new();
    let mut i: usize = 0;
    assert(sv.take(0).filter(pred) =~= Seq::<SongView>::empty()) by {
        reveal_with_fuel(Seq::<_>::filter, 1);
    }
    while i < all_songs.len()
        invariant
            i <= all_songs.len(),
            sv == song_views(all_songs@),
            fc@ == folder@,
            pred == in_folder_ignore_case(folder@),
            string_views(r@) == files_of(sv.take(i as int).filter(pred)),
        decreases all_songs.len() - i,
    {
        proof {
            assert(sv.take(i + 1) =~= sv.take(i as int).push(sv[i as int]));
            sv.take(i as int).lemma_filter_push(sv[i as int], pred);
        }
        let part = nth_part_chars(&to_chars(all_songs[i].file.as_str()), '/', BY_FOLDER_DEPTH);
        if eq_ignore_ascii_case_chars(&part, &fc) {
            let ghost before = string_views(r@);
            assert(pred(sv[i as int]));
            r.push(all_songs[i].file.clone());
            assert(string_views(r@) =~= before.push(sv[i as int].file));
            assert(string_views(r@) =~= files_of(sv.take(i + 1).filter(pred)));
        } else {
            assert(string_views(r@) =~= files_of(sv.take(i + 1).filter(pred)));
        }
        i = i + 1;
    }
    assert(sv.take(i as int) =~= sv);
    r
}

pub open spec fn in_folder_ignore_case(folder: Seq<char>) -> spec_fn(SongView) -> bool {
    |s: SongView| eq_ignore_ascii_case(nth_part(s.file, '/', BY_FOLDER_DEPTH as nat), folder)
}

// ------------------------------------------------------------------------
// Laws
// ------------------------------------------------------------------------

/// `s` holds no copy of `pat` at any place.
pub open spec fn holds_no_copy(s: Seq<char>, pat: Seq<char>) -> bool {
    forall|i: int| 0 <= i <= s.len() ==> !starts_with(#[trigger] s.skip(i), pat)
}

/// Removing the copies of `pat` from a string that holds none changes nothing.
proof fn lemma_remove_all_no_copy(s: Seq<char>, pat: Seq<char>)
    requires
        pat.len() > 0,
        holds_no_copy(s, pat),
    ensures
        remove_all(s, pat) == s,
    decreases s.len(),
{
    if s.len() > 0 {
        assert(s.skip(0) =~= s);
        let d = s.drop_first();
        assert forall|i: int| 0 <= i <= d.len() implies !starts_with(#[trigger] d.skip(i), pat) by {
            assert(d.skip(i) =~= s.skip(i + 1));
        }
        lemma_remove_all_no_copy(d, pat);
        assert(seq![s[0]] + d =~= s);
    }
}

/// Removing the copies of `pat` from `pat + name` gives `name` when `name`
/// holds no copy of `pat`.
proof fn lemma_remove_all_prefixed(pat: Seq<char>, name: Seq<char>)
    requires
        pat.len() > 0,
        holds_no_copy(name, pat),
    ensures
        starts_with(pat + name, pat),
        remove_all(pat + name, pat) == name,
{
    let s = pat + name;
    assert(s.take(pat.len() as int) =~= pat);
    assert(s.skip(pat.len() as int) =~= name);
    lemma_remove_all_no_copy(name, pat);
}

/// A string that differs from `p` at a place within both does not start with `p`.
proof fn lemma_differs_at(id: Seq<char>, p: Seq<char>, i: int)
    requires
        0 <= i < p.len(),
        i < id.len(),
        id[i] != p[i],
    ensures
        !starts_with(id, p),
{
    if p.len() <= id.len() {
        assert(id.take(p.len() as int)[i] == id[i]);
    }
}

/// The identifier of a genre playlist names that genre again (when the genre
/// holds no copy of the prefix), so loading it lists the songs of that genre.
pub proof fn law_genre_playlist_id(name: Seq<char>, q: PlaylistQuery)
    requires
        holds_no_copy(name, BY_GENRE_PL_PREFIX@),
        query_ok(BY_GENRE_PL_PREFIX@ + name, q),
    ensures
        q matches PlaylistQuery::ByGenre(n) && n@ == name,
        forall|s: SongView| query_matches(q, s) <==> s.genre == Some(name),
{
    reveal_strlit("playlist_saved_");
    reveal_strlit("playlist_by_genre_");
    let id = BY_GENRE_PL_PREFIX@ + name;
    lemma_differs_at(id, SAVED_PL_PREFIX@, 9);
    lemma_remove_all_prefixed(BY_GENRE_PL_PREFIX@, name);
}

/// The identifier of an artist playlist names that artist again (when the
/// artist holds no copy of the prefix), so loading it lists the artist's songs.
pub proof fn law_artist_playlist_id(name: Seq<char>, q: PlaylistQuery)
    requires
        holds_no_copy(name, BY_ARTIST_PL_PREFIX@),
        query_ok(BY_ARTIST_PL_PREFIX@ + name, q),
    ensures
        q matches PlaylistQuery::ByArtist(n) && n@ == name,
        forall|s: SongView| query_matches(q, s) <==> s.artist == Some(name),
{
    reveal_strlit("playlist_saved_");
    reveal_strlit("playlist_by_genre_");
    reveal_strlit("playlist_by_artist_");
    let id = BY_ARTIST_PL_PREFIX@ + name;
    lemma_differs_at(id, SAVED_PL_PREFIX@, 9);
    lemma_differs_at(id, BY_GENRE_PL_PREFIX@, 12);
    lemma_remove_all_prefixed(BY_ARTIST_PL_PREFIX@, name);
}

/// The identifier of a date playlist names that date again (when the date
/// holds no copy of the prefix), so loading it lists the songs of that date.
pub proof fn law_date_playlist_id(name: Seq<char>, q: PlaylistQuery)
    requires
        holds_no_copy(name, BY_DATE_PL_PREFIX@),
        query_ok(BY_DATE_PL_PREFIX@ + name, q),
    ensures
        q matches PlaylistQuery::ByDate(n) && n@ == name,
        forall|s: SongView| query_matches(q, s) <==> s.date == Some(name),
{
    reveal_strlit("playlist_saved_");
    reveal_strlit("playlist_by_genre_");
    reveal_strlit("playlist_by_artist_");
    reveal_strlit("playlist_by_date_");
    let id = BY_DATE_PL_PREFIX@ + name;
    lemma_differs_at(id, SAVED_PL_PREFIX@, 9);
    lemma_differs_at(id, BY_GENRE_PL_PREFIX@, 12);
    lemma_differs_at(id, BY_ARTIST_PL_PREFIX@, 12);
    lemma_remove_all_prefixed(BY_DATE_PL_PREFIX@, name);
}

/// The identifier of a folder playlist names that folder again (when the
/// folder holds no copy of the prefix), so loading it lists the songs whose
/// folder below the top one it is.
pub proof fn law_folder_playlist_id(name: Seq<char>, q: PlaylistQuery)
    requires
        holds_no_copy(name, BY_FOLDER_PL_PREFIX@),
        query_ok(BY_FOLDER_PL_PREFIX@ + name, q),
    ensures
        q matches PlaylistQuery::ByFolder(n) && n@ == name,
        forall|s: SongView|
            query_matches(q, s) <==> (s.file.contains('/') && nth_part(s.file, '/', BY_FOLDER_DEPTH as nat) == name),
{
    reveal_strlit("playlist_saved_");
    reveal_strlit("playlist_by_genre_");
    reveal_strlit("playlist_by_artist_");
    reveal_strlit("playlist_by_date_");
    reveal_strlit("playlist_by_folder_");
    let id = BY_FOLDER_PL_PREFIX@ + name;
    lemma_differs_at(id, SAVED_PL_PREFIX@, 9);
    lemma_differs_at(id, BY_GENRE_PL_PREFIX@, 12);
    lemma_differs_at(id, BY_ARTIST_PL_PREFIX@, 12);
    lemma_differs_at(id, BY_DATE_PL_PREFIX@, 12);
    lemma_remove_all_prefixed(BY_FOLDER_PL_PREFIX@, name);
}

/// The identifier of a saved playlist names that playlist again (when its
/// name holds no copy of the prefix).
pub proof fn law_saved_playlist_id(name: Seq<char>, q: PlaylistQuery)
    requires
        holds_no_copy(name, SAVED_PL_PREFIX@),
        query_ok(SAVED_PL_PREFIX@ + name, q),
    ensures
        q matches PlaylistQuery::Saved(n) && n@ == name,
{
    reveal_strlit("playlist_saved_");
    lemma_remove_all_prefixed(SAVED_PL_PREFIX@, name);
}

} // verus!
