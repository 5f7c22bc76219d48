use vstd::prelude::*;
use vstd::utf8::*;
use vstd::string::*;

use rand::Rng;

use crate::song::{clone_opt_string, Song, SongView};
use crate::text::{
    compare_bytes, lemma_lex_lt_asymmetric, lemma_lex_lt_irreflexive, lemma_lex_lt_transitive, lex_lt, KeyOrder,
};

verus! {

// ------------------------------------------------------------------------
// The model
// ------------------------------------------------------------------------

/// The byte key under which a song is stored: the UTF-8 bytes of its file.
pub open spec fn file_key(file: Seq<char>) -> Seq<u8> {
    encode_utf8(file)
}

pub open spec fn song_key(s: SongView) -> Seq<u8> {
    file_key(s.file)
}

/// Songs stored in strictly increasing key order (so no file occurs twice).
pub open spec fn strictly_sorted(s: Seq<SongView>) -> bool {
    forall|i: int, j: int| 0 <= i < j < s.len() ==> lex_lt(song_key(s[i]), song_key(s[j]))
}

/// The store `s` after storing `x` under its key: a song with the same key is
/// replaced in place, otherwise `x` goes where its key belongs.
pub open spec fn sorted_insert(s: Seq<SongView>, x: SongView) -> Seq<SongView>
    decreases s.len(),
{
    if s.len() == 0 {
        seq![x]
    } else if song_key(s[0]) == song_key(x) {
        seq![x] + s.drop_first()
    } else if lex_lt(song_key(x), song_key(s[0])) {
        seq![x] + s
    } else {
        seq![s[0]] + sorted_insert(s.drop_first(), x)
    }
}

/// The store `s` after storing each present item, in order.
pub open spec fn insert_all(s: Seq<SongView>, items: Seq<Option<SongView>>) -> Seq<SongView>
    decreases items.len(),
{
    if items.len() == 0 {
        s
    } else {
        let before = insert_all(s, items.drop_last());
        match items.last() {
            Some(x) => sorted_insert(before, x),
            None => before,
        }
    }
}

/// The files of the present items, in order.
pub open spec fn present_files(items: Seq<Option<SongView>>) -> Seq<Seq<char>>
    decreases items.len(),
{
    if items.len() == 0 {
        Seq::empty()
    } else {
        let before = present_files(items.drop_last());
        match items.last() {
            Some(x) => before.push(x.file),
            None => before,
        }
    }
}

/// The stored song whose file is `k`, if any.
pub open spec fn lookup(s: Seq<SongView>, k: Seq<char>) -> Option<SongView>
    decreases s.len(),
{
    if s.len() == 0 {
        None
    } else if s[0].file == k {
        Some(s[0])
    } else {
        lookup(s.drop_first(), k)
    }
}

/// The first stored song (in key order) with identifier `id`, if any.
pub open spec fn find_by_id(s: Seq<SongView>, id: Seq<char>) -> Option<SongView>
    decreases s.len(),
{
    if s.len() == 0 {
        None
    } else if s[0].id == id {
        Some(s[0])
    } else {
        find_by_id(s.drop_first(), id)
    }
}

/// Index of the first occurrence of `k` in `q`, or -1.
pub open spec fn position_of(q: Seq<Seq<char>>, k: Seq<char>) -> int
    decreases q.len(),
{
    if q.len() == 0 {
        -1
    } else if q[0] == k {
        0
    } else {
        let r = position_of(q.drop_first(), k);
        if r < 0 {
            -1
        } else {
            r + 1
        }
    }
}

/// The stored songs whose key is not below `k`, in key order.
pub open spec fn at_or_after(s: Seq<SongView>, k: Seq<u8>) -> Seq<SongView>
    decreases s.len(),
{
    if s.len() == 0 {
        s
    } else if lex_lt(song_key(s.last()), k) {
        at_or_after(s.drop_last(), k)
    } else {
        at_or_after(s.drop_last(), k).push(s.last())
    }
}

/// The values of a list of songs.
pub open spec fn song_views(v: Seq<Song>) -> Seq<SongView> {
    v.map_values(|x: Song| x@)
}

/// Every song of a list, as a present item.
pub open spec fn all_present(v: Seq<SongView>) -> Seq<Option<SongView>> {
    v.map_values(|x: SongView| Some(x))
}

/// The files of the stored songs, in key order.
pub open spec fn files_of(s: Seq<SongView>) -> Seq<Seq<char>> {
    s.map_values(|x: SongView| x.file)
}

/// The values of a list of optional songs.
pub open spec fn opt_song_views(v: Seq<Option<Song>>) -> Seq<Option<SongView>> {
    v.map_values(|o: Option<Song>| opt_song_view(o))
}

pub open spec fn opt_song_view(o: Option<Song>) -> Option<SongView> {
    match o {
        Some(s) => Some(s@),
        None => None,
    }
}

pub open spec fn opt_string_view(o: Option<String>) -> Option<Seq<char>> {
    match o {
        Some(s) => Some(s@),
        None => None,
    }
}

pub open spec fn min_nat(a: int, b: int) -> int {
    if a < b {
        a
    } else {
        b
    }
}

// ------------------------------------------------------------------------
// Lemmas about the model
// ------------------------------------------------------------------------

/// Equal keys mean equal files.
pub proof fn lemma_file_key_injective(a: Seq<char>, b: Seq<char>)
    requires
        file_key(a) == file_key(b),
    ensures
        a == b,
{
    encode_utf8_decode_utf8(a);
    encode_utf8_decode_utf8(b);
}

/// Storing `x` at the place found by scanning for the first key that is not below it.
proof fn lemma_sorted_insert_at(s: Seq<SongView>, x: SongView, p: int)
    requires
        strictly_sorted(s),
        0 <= p <= s.len(),
        forall|j: int| 0 <= j < p ==> lex_lt(song_key(s[j]), song_key(x)),
        p < s.len() ==> (song_key(s[p]) == song_key(x) || lex_lt(song_key(x), song_key(s[p]))),
    ensures
        sorted_insert(s, x) == (if p < s.len() && song_key(s[p]) == song_key(x) {
            s.update(p, x)
        } else {
            s.insert(p, x)
        }),
        strictly_sorted(sorted_insert(s, x)),
    decreases s.len(),
{
    if s.len() == 0 {
        assert(seq![x] =~= s.insert(p, x));
    } else if p == 0 {
        if song_key(s[0]) == song_key(x) {
            assert(seq![x] + s.drop_first() =~= s.update(0, x));
        } else {
            lemma_lex_lt_asymmetric(song_key(x), song_key(s[0]));
            assert(seq![x] + s =~= s.insert(0, x));
            assert forall|i: int, j: int| 0 <= i < j < s.len() + 1 implies lex_lt(
                song_key(s.insert(0, x)[i]),
                song_key(s.insert(0, x)[j]),
            ) by {
                if i == 0 {
                    if j > 1 {
                        lemma_lex_lt_transitive(song_key(x), song_key(s[0]), song_key(s[j - 1]));
                    }
                }
            }
        }
    } else {
        lemma_lex_lt_asymmetric(song_key(s[0]), song_key(x));
        let rest = s.drop_first();
        assert forall|j: int| 0 <= j < p - 1 implies lex_lt(song_key(rest[j]), song_key(x)) by {
            assert(rest[j] == s[j + 1]);
        }
        lemma_sorted_insert_at(rest, x, p - 1);
        if p < s.len() && song_key(s[p]) == song_key(x) {
            assert(seq![s[0]] + rest.update(p - 1, x) =~= s.update(p, x));
        } else {
            assert(seq![s[0]] + rest.insert(p - 1, x) =~= s.insert(p, x));
        }
        let r = sorted_insert(s, x);
        assert forall|i: int, j: int| 0 <= i < j < r.len() implies lex_lt(
            song_key(r[i]),
            song_key(r[j]),
        ) by {
            if i == 0 {
                let rr = sorted_insert(rest, x);
                assert(r[j] == rr[j - 1]);
                if p < s.len() && song_key(s[p]) == song_key(x) {
                    if j - 1 == p - 1 {
                        assert(lex_lt(song_key(s[0]), song_key(s[p])));
                    } else {
                        assert(rr[j - 1] == s[j]);
                    }
                } else {
                    if j - 1 < p - 1 {
                        assert(rr[j - 1] == s[j]);
                    } else if j - 1 == p - 1 {
                    } else {
                        assert(rr[j - 1] == s[j - 1]);
                    }
                }
            }
        }
    }
}

/// A linear scan that found `k` at `j` and nowhere before finds what `lookup` finds.
proof fn lemma_lookup_at(s: Seq<SongView>, k: Seq<char>, j: int)
    requires
        0 <= j <= s.len(),
        forall|i: int| 0 <= i < j ==> s[i].file != k,
        j < s.len() ==> s[j].file == k,
    ensures
        lookup(s, k) == (if j < s.len() {
            Some(s[j])
        } else {
            None::<SongView>
        }),
    decreases s.len(),
{
    if s.len() > 0 && j > 0 {
        let rest = s.drop_first();
        assert forall|i: int| 0 <= i < j - 1 implies rest[i].file != k by {
            assert(rest[i] == s[i + 1]);
        }
        lemma_lookup_at(rest, k, j - 1);
    }
}

/// A linear scan for an identifier agrees with `find_by_id`.
proof fn lemma_find_by_id_at(s: Seq<SongView>, id: Seq<char>, j: int)
    requires
        0 <= j <= s.len(),
        forall|i: int| 0 <= i < j ==> s[i].id != id,
        j < s.len() ==> s[j].id == id,
    ensures
        find_by_id(s, id) == (if j < s.len() {
            Some(s[j])
        } else {
            None::<SongView>
        }),
    decreases s.len(),
{
    if s.len() > 0 && j > 0 {
        let rest = s.drop_first();
        assert forall|i: int| 0 <= i < j - 1 implies rest[i].id != id by {
            assert(rest[i] == s[i + 1]);
        }
        lemma_find_by_id_at(rest, id, j - 1);
    }
}

/// A linear scan of the play order agrees with `position_of`.
proof fn lemma_position_at(q: Seq<Seq<char>>, k: Seq<char>, j: int)
    requires
        0 <= j <= q.len(),
        forall|i: int| 0 <= i < j ==> q[i] != k,
        j < q.len() ==> q[j] == k,
    ensures
        position_of(q, k) == (if j < q.len() {
            j
        } else {
            -1
        }),
    decreases q.len(),
{
    if q.len() > 0 && j > 0 {
        let rest = q.drop_first();
        assert forall|i: int| 0 <= i < j - 1 implies rest[i] != k by {
            assert(rest[i] == q[i + 1]);
        }
        lemma_position_at(rest, k, j - 1);
    }
}

/// `lookup` finds a song exactly when some stored song has the file.
proof fn lemma_lookup_some(s: Seq<SongView>, k: Seq<char>)
    ensures
        (lookup(s, k) is Some) == (exists|i: int| 0 <= i < s.len() && s[i].file == k),
        lookup(s, k) matches Some(v) ==> v.file == k,
    decreases s.len(),
{
    if s.len() > 0 {
        lemma_lookup_some(s.drop_first(), k);
        if s[0].file != k {
            if exists|i: int| 0 <= i < s.len() && s[i].file == k {
                let i = choose|i: int| 0 <= i < s.len() && s[i].file == k;
                assert(s.drop_first()[i - 1] == s[i]);
            }
            if exists|i: int| 0 <= i < s.len() - 1 && s.drop_first()[i].file == k {
                let i = choose|i: int| 0 <= i < s.len() - 1 && s.drop_first()[i].file == k;
                assert(s[i + 1] == s.drop_first()[i]);
            }
        }
    }
}

/// In a sorted store, the songs at or after a key form the suffix that starts at
/// the first key that is not below it.
proof fn lemma_at_or_after_suffix(s: Seq<SongView>, k: Seq<u8>, p: int)
    requires
        strictly_sorted(s),
        0 <= p <= s.len(),
        forall|j: int| 0 <= j < p ==> lex_lt(song_key(s[j]), k),
        forall|j: int| p <= j < s.len() ==> !lex_lt(song_key(s[j]), k),
    ensures
        at_or_after(s, k) == s.skip(p),
    decreases s.len(),
{
    if s.len() == 0 {
        assert(s.skip(p) =~= s);
    } else {
        let d = s.drop_last();
        if p == s.len() {
            lemma_at_or_after_suffix(d, k, p - 1);
            assert(d.skip(p - 1) =~= s.skip(p));
        } else {
            lemma_at_or_after_suffix(d, k, p);
            assert(d.skip(p).push(s.last()) =~= s.skip(p));
        }
    }
}

// ------------------------------------------------------------------------
// The queue
// ------------------------------------------------------------------------

/// What moving to the next song does to the current key: with random "next"
/// it becomes a file of the play order other than the last; else it becomes
/// the file after the first occurrence of the key that counts as current; a
/// move past the end changes nothing, and a move onto the key that is already
/// explicitly current clears it.
pub open spec fn next_move(before: PlaybackQueue, after: PlaybackQueue, r: bool) -> bool {
    match before.selected_key() {
        None => !r && after.current() == before.current(),
        Some(k) => if before.is_random() {
            r && exists|i: int| 0 <= i < before.keys().len() - 1 && after.current() == Some(before.keys()[i])
        } else {
            let p = position_of(before.keys(), k);
            if p < 0 || p + 1 >= before.keys().len() {
                !r && after.current() == before.current()
            } else if before.current() == Some(before.keys()[p + 1]) {
                !r && after.current() is None
            } else {
                r && after.current() == Some(before.keys()[p + 1])
            }
        },
    }
}

/// What moving to the previous song does to the current key: it becomes the
/// file before the first occurrence of the key that counts as current (the
/// first file stays); with no such occurrence nothing changes.
pub open spec fn previous_move(before: PlaybackQueue, after: PlaybackQueue, r: bool) -> bool {
    match before.selected_key() {
        None => !r && after.current() == before.current(),
        Some(k) => {
            let p = position_of(before.keys(), k);
            if p < 0 {
                !r && after.current() == before.current()
            } else {
                r && after.current() == Some(before.keys()[if p > 0 { p - 1 } else { 0 }])
            }
        },
    }
}

/// What moving to a song identifier does to the current key: it becomes the
/// file of the first stored song (in key order) with that identifier; with
/// none nothing changes.
pub open spec fn move_to_id(before: PlaybackQueue, after: PlaybackQueue, id: Seq<char>, r: bool) -> bool {
    match find_by_id(before.entries(), id) {
        None => !r && after.current() == before.current(),
        Some(s) => r && after.current() == Some(s.file),
    }
}

/// The playback queue: the stored songs keyed by file, the order in which
/// songs were added, the song that is current and whether "next" picks a
/// random song.
pub struct PlaybackQueue {
    songs: Vec<Song>,
    queue: Vec<String>,
    current_song_key: Option<String>,
    random_next: bool,
}

/// Draws an index below `upper` with rand's `Rng::gen_range(0, upper)` on the
/// thread-local generator: the result lies in `[0, upper)`, and the call panics
/// unless `0 < upper`. Which index comes out is chance and is not stated.
#[verifier::external_body]
fn random_index_below(upper: usize) -> (r: usize)
    requires
        upper > 0,
    ensures
        r < upper,
{
    rand::thread_rng().gen_range(0, upper)
}

impl PlaybackQueue {
    /// The stored songs, in key order.
    pub closed spec fn entries(&self) -> Seq<SongView> {
        song_views(self.songs@)
    }

    /// The files in the order in which they were added.
    pub closed spec fn keys(&self) -> Seq<Seq<char>> {
        self.queue@.map_values(|k: String| k@)
    }

    /// The file of the song explicitly made current, if any.
    pub closed spec fn current(&self) -> Option<Seq<char>> {
        opt_string_view(self.current_song_key)
    }

    /// Empties the queue, then adds each present song in order as `add_song` does.
    /// The explicitly current key is kept.
    pub fn replace_all(&mut self, songs: Vec<Option<Song>>)
        requires
            old(self).wf(),
        ensures
            final(self).wf(),
            final(self).entries() == insert_all(Seq::empty(), opt_song_views(songs@)),
            final(self).keys() == present_files(opt_song_views(songs@)),
            final(self).current() == old(self).current(),
            final(self).is_random() == old(self).is_random(),
    {
        let ghost items = opt_song_views(songs@);
        self.songs.clear();
        self.queue.clear();
        assert(self.entries() =~= Seq::<SongView>::empty());
        assert(self.keys() =~= Seq::<Seq<char>>::empty());
        assert(items.take(0) =~= Seq::<Option<SongView>>::empty());
        let mut i: usize = 0;
        while i < songs.len()
            invariant
                i <= songs.len(),
                items == opt_song_views(songs@),
                self.wf(),
                self.entries() == insert_all(Seq::empty(), items.take(i as int)),
                self.keys() == present_files(items.take(i as int)),
                self.current() == old(self).current(),
                self.is_random() == old(self).is_random(),
            decreases songs.len() - i,
        {
            assert(items.take(i + 1).drop_last() =~= items.take(i as int));
            assert(items.take(i + 1).last() == items[i as int]);
            match &songs[i] {
                Some(song) => {
                    let c = song.copy();
                    let key = song.file.clone();
                    let ghost old_entries = self.entries();
                    let ghost old_keys = self.keys();
                    let ghost x = c@;
                    let (p, _found) = self.store(c);
                    self.queue.push(key);
                    assert(self.keys() =~= old_keys.push(x.file));
                    proof {
                        self.lemma_keys_stored_after_insert(old_keys, old_entries, x, p as int);
                    }
                },
                None => {},
            }
            i = i + 1;
        }
        assert(items.take(i as int) =~= items);
    }

    /// A queue holding the given stored songs, with the play order being the
    /// files in key order, and the given current key and random setting.
    pub fn restore(stored: Vec<Song>, current: Option<String>, random_next: bool) -> (q: PlaybackQueue)
        ensures
            q.wf(),
            q.entries() == insert_all(Seq::empty(), all_present(song_views(stored@))),
            q.keys() == files_of(q.entries()),
            q.current() == opt_string_view(current),
            q.is_random() == random_next,
    {
        let ghost items = all_present(song_views(stored@));
        let mut q = PlaybackQueue::new();
        assert(items.take(0) =~= Seq::<Option<SongView>>::empty());
        let mut i: usize = 0;
        while i < stored.len()
            invariant
                i <= stored.len(),
                items == all_present(song_views(stored@)),
                strictly_sorted(q.entries()),
                q.entries() == insert_all(Seq::empty(), items.take(i as int)),
            decreases stored.len() - i,
        {
            assert(items.take(i + 1).drop_last() =~= items.take(i as int));
            assert(items.take(i + 1).last() == Some(stored@[i as int]@));
            let c = stored[i].copy();
            q.store(c);
            i = i + 1;
        }
        assert(items.take(i as int) =~= items);
        let mut keys: Vec<String> = Vec::new();
        let mut j: usize = 0;
        while j < q.songs.len()
            invariant
                j <= q.songs.len(),
                keys@.map_values(|k: String| k@) == files_of(q.entries()).take(j as int),
            decreases q.songs.len() - j,
        {
            let k = q.songs[j].file.clone();
            let ghost old_keys = keys@;
            keys.push(k);
            assert(keys@.map_values(|k: String| k@) =~= old_keys.map_values(|k: String| k@).push(k@));
            assert(files_of(q.entries()).take(j + 1) =~= files_of(q.entries()).take(j as int).push(k@));
            j = j + 1;
        }
        q.queue = keys;
        q.current_song_key = current;
        q.random_next = random_next;
        assert(q.keys() =~= files_of(q.entries()));
        assert forall|i: int| 0 <= i < q.keys().len() implies (#[trigger] lookup(q.entries(), q.keys()[i])) is Some by {
            lemma_lookup_some(q.entries(), q.keys()[i]);
        }
        q
    }

    /// Whether "next" picks a random song.
    pub closed spec fn is_random(&self) -> bool {
        self.random_next
    }

    /// The stored songs are in strictly increasing key order and every added
    /// file is stored.
    pub open spec fn wf(&self) -> bool {
        &&& strictly_sorted(self.entries())
        &&& forall|i: int|
            0 <= i < self.keys().len() ==> (#[trigger] lookup(self.entries(), self.keys()[i])) is Some
    }

    /// The key that counts as current: the explicit one, else the first added,
    /// else the first stored.
    pub open spec fn selected_key(&self) -> Option<Seq<char>> {
        if self.current() is Some {
            self.current()
        } else if self.keys().len() > 0 {
            Some(self.keys()[0])
        } else if self.entries().len() > 0 {
            Some(self.entries()[0].file)
        } else {
            None
        }
    }

    /// The state is unchanged but for the current key.
    pub open spec fn same_but_current(&self, other: &PlaybackQueue) -> bool {
        &&& self.entries() == other.entries()
        &&& self.keys() == other.keys()
        &&& self.is_random() == other.is_random()
    }

    /// The stored song whose file is the key that counts as current, if any.
    pub open spec fn current_song(&self) -> Option<SongView> {
        match self.selected_key() {
            Some(k) => lookup(self.entries(), k),
            None => None,
        }
    }

    /// An empty queue.
    pub fn new() -> (q: PlaybackQueue)
        ensures
            q.wf(),
            q.entries().len() == 0,
            q.keys().len() == 0,
            q.current() is None,
            !q.is_random(),
    {
        let q = PlaybackQueue {
            songs: Vec::new(),
            queue: Vec::new(),
            current_song_key: None,
            random_next: false,
        };
        assert(q.entries() =~= Seq::<SongView>::empty());
        assert(q.keys() =~= Seq::<Seq<char>>::empty());
        q
    }

    /// Stores `song` under its file, keeping the key order.
    fn store(&mut self, song: Song) -> (r: (usize, bool))
        requires
            strictly_sorted(old(self).entries()),
        ensures
            r.0 <= old(self).entries().len(),
            forall|j: int| 0 <= j < r.0 ==> lex_lt(song_key(old(self).entries()[j]), song_key(song@)),
            r.1 ==> r.0 < old(self).entries().len() && song_key(old(self).entries()[r.0 as int]) == song_key(song@),
            !r.1 && r.0 < old(self).entries().len() ==> lex_lt(song_key(song@), song_key(old(self).entries()[r.0 as int])),
            final(self).entries() == sorted_insert(old(self).entries(), song@),
            strictly_sorted(final(self).entries()),
            final(self).queue == old(self).queue,
            final(self).current_song_key == old(self).current_song_key,
            final(self).random_next == old(self).random_next,
    {
        let ghost s = self.entries();
        let mut i: usize = 0;
        let mut found = false;
        while i < self.songs.len()
            invariant_except_break
                !found,
                i <= self.songs.len(),
                s == self.entries(),
                forall|j: int| 0 <= j < i ==> lex_lt(song_key(s[j]), song_key(song@)),
            ensures
                i <= self.songs.len(),
                s == self.entries(),
                forall|j: int| 0 <= j < i ==> lex_lt(song_key(s[j]), song_key(song@)),
                found ==> i < self.songs.len() && song_key(s[i as int]) == song_key(song@),
                !found && i < self.songs.len() ==> lex_lt(song_key(song@), song_key(s[i as int])),
            decreases self.songs.len() - i,
        {
            let a = self.songs[i].file.as_str().as_bytes();
            let b = song.file.as_str().as_bytes();
            assert(a@ == song_key(s[i as int]));
            assert(b@ == song_key(song@));
            let c = compare_bytes(a, b);
            match c {
                KeyOrder::Less => {
                    i = i + 1;
                },
                KeyOrder::Equal => {
                    found = true;
                    break ;
                },
                KeyOrder::Greater => {
                    break ;
                },
            }
        }
        proof {
            lemma_sorted_insert_at(s, song@, i as int);
        }
        if found {
            self.songs[i] = song;
            assert(self.entries() =~= s.update(i as int, song@));
        } else {
            self.songs.insert(i, song);
            assert(self.entries() =~= s.insert(i as int, song@));
        }
        (i, found)
    }

    /// Adds `song` at the end of the play order and stores it under its file,
    /// replacing a stored song with the same file.
    pub fn add_song(&mut self, song: Song)
        requires
            old(self).wf(),
        ensures
            final(self).wf(),
            final(self).entries() == sorted_insert(old(self).entries(), song@),
            final(self).keys() == old(self).keys().push(song@.file),
            final(self).current() == old(self).current(),
            final(self).is_random() == old(self).is_random(),
    {
        let key = song.file.clone();
        let ghost old_entries = self.entries();
        let ghost x = song@;
        let (p, _found) = self.store(song);
        self.queue.push(key);
        assert(self.keys() =~= old(self).keys().push(key@));
        proof {
            self.lemma_keys_stored_after_insert(old(self).keys(), old_entries, x, p as int);
        }
    }

    /// Whether "next" picks a random song.
    pub fn get_random_next(&self) -> (r: bool)
        ensures
            r == self.is_random(),
    {
        self.random_next
    }

    /// Switches random "next" on or off and returns the new setting.
    pub fn toggle_random_next(&mut self) -> (r: bool)
        requires
            old(self).wf(),
        ensures
            final(self).wf(),
            r == !old(self).is_random(),
            final(self).is_random() == r,
            final(self).entries() == old(self).entries(),
            final(self).keys() == old(self).keys(),
            final(self).current() == old(self).current(),
    {
        self.random_next = !self.random_next;
        self.random_next
    }

    /// The number of stored songs.
    pub fn len(&self) -> (r: usize)
        ensures
            r == self.entries().len(),
    {
        self.songs.len()
    }

    /// The number of files in the play order.
    pub fn play_order_len(&self) -> (r: usize)
        ensures
            r == self.keys().len(),
    {
        self.queue.len()
    }

    /// The file of the song explicitly made current, if any.
    pub fn current_song_key(&self) -> (r: Option<String>)
        ensures
            opt_string_view(r) == self.current(),
    {
        clone_opt_string(&self.current_song_key)
    }

    /// The key that counts as current: the explicit one, else the first added,
    /// else the first stored.
    fn get_current_or_first_song_key(&self) -> (r: Option<String>)
        ensures
            opt_string_view(r) == self.selected_key(),
    {
        if self.current_song_key.is_some() {
            clone_opt_string(&self.current_song_key)
        } else if self.queue.len() > 0 {
            Some(self.queue[0].clone())
        } else if self.songs.len() > 0 {
            Some(self.songs[0].file.clone())
        } else {
            None
        }
    }

    /// Index of the stored song with file `k`, if any.
    fn index_of_file(&self, k: &String) -> (r: Option<usize>)
        ensures
            match r {
                Some(j) => j < self.entries().len() && lookup(self.entries(), k@) == Some(self.entries()[j as int]),
                None => lookup(self.entries(), k@) is None,
            },
    {
        let mut j: usize = 0;
        while j < self.songs.len()
            invariant
                j <= self.songs.len(),
                forall|i: int| 0 <= i < j ==> self.entries()[i].file != k@,
            decreases self.songs.len() - j,
        {
            if self.songs[j].file == *k {
                proof { lemma_lookup_at(self.entries(), k@, j as int); }
                return Some(j);
            }
            j = j + 1;
        }
        proof { lemma_lookup_at(self.entries(), k@, j as int); }
        None
    }

    /// Position of the first occurrence of `k` in the play order, if any.
    fn position_in_queue(&self, k: &String) -> (r: Option<usize>)
        ensures
            match r {
                Some(j) => j < self.keys().len() && position_of(self.keys(), k@) == j,
                None => position_of(self.keys(), k@) == -1,
            },
    {
        let mut j: usize = 0;
        while j < self.queue.len()
            invariant
                j <= self.queue.len(),
                forall|i: int| 0 <= i < j ==> self.keys()[i] != k@,
            decreases self.queue.len() - j,
        {
            if self.queue[j] == *k {
                proof { lemma_position_at(self.keys(), k@, j as int); }
                return Some(j);
            }
            j = j + 1;
        }
        proof { lemma_position_at(self.keys(), k@, j as int); }
        None
    }

    /// The song that counts as current, if it is stored.
    pub fn get_current_song(&self) -> (r: Option<Song>)
        ensures
            opt_song_view(r) == self.current_song(),
    {
        if let Some(key) = self.get_current_or_first_song_key() {
            if let Some(j) = self.index_of_file(&key) {
                return Some(self.songs[j].copy());
            }
        }
        None
    }

    /// Makes the next song current: a random one of the play order (never its
    /// last) when random "next" is on, else the one after the current song in
    /// the play order. Returns whether the current song changed.
    pub fn move_current_to_next_song(&mut self) -> (r: bool)
        requires
            old(self).wf(),
            old(self).is_random() && old(self).selected_key() is Some ==> old(self).keys().len() >= 2,
        ensures
            final(self).wf(),
            final(self).same_but_current(old(self)),
            next_move(*old(self), *final(self), r),
    {
        let Some(current) = self.get_current_or_first_song_key() else {
            return false;
        };
        if self.random_next {
            let rand_position = random_index_below(self.queue.len() - 1);
            let rand_key = self.queue[rand_position].clone();
            self.current_song_key = Some(rand_key);
            assert(self.current() == Some(old(self).keys()[rand_position as int]));
            true
        } else {
            let Some(pos) = self.position_in_queue(&current) else {
                return false;
            };
            assert(pos < self.queue.len());
            if pos >= self.queue.len() - 1 {
                return false;
            }
            let next = self.queue[pos + 1].clone();
            let same = match &self.current_song_key {
                Some(c) => *c == next,
                None => false,
            };
            if same {
                self.current_song_key = None;
                return false;
            }
            self.current_song_key = Some(next);
            true
        }
    }

    /// Makes the song before the current one in the play order current (the
    /// first song stays current). Returns whether a current song was found.
    pub fn move_current_to_previous_song(&mut self) -> (r: bool)
        requires
            old(self).wf(),
        ensures
            final(self).wf(),
            final(self).same_but_current(old(self)),
            previous_move(*old(self), *final(self), r),
    {
        let Some(current) = self.get_current_or_first_song_key() else {
            return false;
        };
        let Some(pos) = self.position_in_queue(&current) else {
            return false;
        };
        let prev = pos.saturating_sub(1);
        let prev_key = self.queue[prev].clone();
        self.current_song_key = Some(prev_key);
        true
    }

    /// Makes the first stored song (in key order) with identifier `song_id`
    /// current. Returns whether there was one.
    pub fn move_current_to(&mut self, song_id: String) -> (r: bool)
        requires
            old(self).wf(),
        ensures
            final(self).wf(),
            final(self).same_but_current(old(self)),
            move_to_id(*old(self), *final(self), song_id@, r),
    {
        let Some(j) = self.index_of_id(&song_id) else {
            return false;
        };
        let key = self.songs[j].file.clone();
        self.current_song_key = Some(key);
        true
    }

    /// Index of the first stored song (in key order) with identifier `id`, if any.
    fn index_of_id(&self, id: &String) -> (r: Option<usize>)
        ensures
            match r {
                Some(j) => j < self.entries().len() && find_by_id(self.entries(), id@) == Some(self.entries()[j as int]),
                None => find_by_id(self.entries(), id@) is None,
            },
    {
        let mut j: usize = 0;
        while j < self.songs.len()
            invariant
                j <= self.songs.len(),
                forall|i: int| 0 <= i < j ==> self.entries()[i].id != id@,
            decreases self.songs.len() - j,
        {
            if self.songs[j].id == *id {
                proof { lemma_find_by_id_at(self.entries(), id@, j as int); }
                return Some(j);
            }
            j = j + 1;
        }
        proof { lemma_find_by_id_at(self.entries(), id@, j as int); }
        None
    }

    /// All stored songs, in key order.
    pub fn get_all_songs(&self) -> (r: Vec<Song>)
        ensures
            song_views(r@) == self.entries(),
    {
        let mut r: Vec<Song> = Vec::new();
        let mut j: usize = 0;
        while j < self.songs.len()
            invariant
                j <= self.songs.len(),
                song_views(r@) == self.entries().take(j as int),
            decreases self.songs.len() - j,
        {
            let c = self.songs[j].copy();
            assert(c@ == self.entries()[j as int]);
            let ghost old_r = r@;
            r.push(c);
            assert(song_views(r@) =~= song_views(old_r).push(c@));
            assert(self.entries().take(j + 1) =~= self.entries().take(j as int).push(self.entries()[j as int]));
            j = j + 1;
        }
        assert(self.entries().take(j as int) =~= self.entries());
        r
    }

    /// The number of stored songs, and up to `limit` stored songs in key order
    /// starting at the key found at position `offset` of the play order (at the
    /// first added song when `offset` is past the end).
    pub fn get_queue_page(&self, offset: usize, limit: usize) -> (r: (usize, Vec<Song>))
        requires
            self.wf(),
            self.keys().len() > 0,
        ensures
            r.0 == self.entries().len(),
            ({
                let from = if offset < self.keys().len() { self.keys()[offset as int] } else { self.keys()[0] };
                let after = at_or_after(self.entries(), file_key(from));
                r.1@.map_values(|x: Song| x@) == after.take(min_nat(limit as int, after.len() as int))
            }),
    {
        let from = if offset < self.queue.len() { &self.queue[offset] } else { &self.queue[0] };
        let fb = from.as_str().as_bytes();
        let ghost k = file_key(from@);
        let ghost s = self.entries();
        assert(fb@ == k);
        let mut p: usize = 0;
        while p < self.songs.len()
            invariant_except_break
                fb@ == k,
                p <= self.songs.len(),
                s == self.entries(),
                forall|j: int| 0 <= j < p ==> lex_lt(song_key(s[j]), k),
            ensures
                p <= self.songs.len(),
                s == self.entries(),
                forall|j: int| 0 <= j < p ==> lex_lt(song_key(s[j]), k),
                p < self.songs.len() ==> !lex_lt(song_key(s[p as int]), k),
            decreases self.songs.len() - p,
        {
            let a = self.songs[p].file.as_str().as_bytes();
            assert(a@ == song_key(s[p as int]));
            match compare_bytes(a, fb) {
                KeyOrder::Less => {
                    p = p + 1;
                },
                _ => {
                    break ;
                },
            }
        }
        proof {
            assert forall|j: int| p <= j < s.len() implies !lex_lt(song_key(s[j]), k) by {
                if j > p && lex_lt(song_key(s[j]), k) {
                    lemma_lex_lt_transitive(song_key(s[p as int]), song_key(s[j]), k);
                }
            }
            lemma_at_or_after_suffix(s, k, p as int);
        }
        let mut r: Vec<Song> = Vec::new();
        let mut j: usize = p;
        while j < self.songs.len() && r.len() < limit
            invariant
                p <= j <= self.songs.len(),
                r.len() == j - p,
                r.len() <= limit,
                song_views(r@) == s.skip(p as int).take(j - p),
                s == self.entries(),
            decreases self.songs.len() - j,
        {
            r.push(self.songs[j].copy());
            j = j + 1;
            assert(song_views(r@) =~= s.skip(p as int).take(j - p));
        }
        assert(s.skip(p as int).take(j - p) =~= s.skip(p as int).take(
            min_nat(limit as int, s.skip(p as int).len() as int),
        ));
        (self.songs.len(), r)
    }

    /// Every key that was stored, and the new one, is stored after an insert.
    proof fn lemma_keys_stored_after_insert(
        &self,
        old_keys: Seq<Seq<char>>,
        old_entries: Seq<SongView>,
        x: SongView,
        p: int,
    )
        requires
            strictly_sorted(old_entries),
            forall|i: int|
                0 <= i < old_keys.len() ==> (#[trigger] lookup(old_entries, old_keys[i])) is Some,
            0 <= p <= old_entries.len(),
            forall|j: int| 0 <= j < p ==> lex_lt(song_key(old_entries[j]), song_key(x)),
            p < old_entries.len() ==> (song_key(old_entries[p]) == song_key(x) || lex_lt(song_key(x), song_key(old_entries[p]))),
            self.entries() == sorted_insert(old_entries, x),
            self.keys() == old_keys.push(x.file),
        ensures
            self.wf(),
    {
        let e = self.entries();
        lemma_sorted_insert_at(old_entries, x, p);
        assert forall|i: int| 0 <= i < self.keys().len() implies (#[trigger] lookup(
            e,
            self.keys()[i],
        )) is Some by {
            let k = self.keys()[i];
            lemma_lookup_some(e, k);
            if i < old_keys.len() {
                assert(lookup(old_entries, old_keys[i]) is Some);
                lemma_lookup_some(old_entries, k);
                let j = choose|j: int| 0 <= j < old_entries.len() && old_entries[j].file == k;
                if p < old_entries.len() && song_key(old_entries[p]) == song_key(x) {
                    if j == p {
                        lemma_file_key_injective(old_entries[p].file, x.file);
                        assert(e[p].file == k);
                    } else {
                        assert(e[j] == old_entries[j]);
                    }
                } else {
                    if j < p {
                        assert(e[j] == old_entries[j]);
                    } else {
                        assert(e[j + 1] == old_entries[j]);
                    }
                }
            } else {
                assert(e[p].file == k);
            }
        }
    }
}

// ------------------------------------------------------------------------
// Laws
// ------------------------------------------------------------------------

/// Index facts of `position_of`: it is -1 or an index holding the key.
proof fn lemma_position_of(q: Seq<Seq<char>>, k: Seq<char>)
    ensures
        -1 <= position_of(q, k) < q.len(),
        position_of(q, k) >= 0 ==> q[position_of(q, k)] == k,
    decreases q.len(),
{
    if q.len() > 0 {
        lemma_position_of(q.drop_first(), k);
    }
}

/// In a sequence without repeats, each element is found at its own index.
proof fn lemma_position_of_distinct(q: Seq<Seq<char>>, i: int)
    requires
        q.no_duplicates(),
        0 <= i < q.len(),
    ensures
        position_of(q, q[i]) == i,
{
    lemma_position_at(q, q[i], i);
}

/// `find_by_id` finds a stored song with that identifier.
proof fn lemma_find_by_id_index(s: Seq<SongView>, id: Seq<char>)
    ensures
        find_by_id(s, id) matches Some(v) ==> v.id == id && exists|j: int| 0 <= j < s.len() && s[j] == v,
    decreases s.len(),
{
    if s.len() > 0 && s[0].id != id {
        lemma_find_by_id_index(s.drop_first(), id);
        if find_by_id(s, id) is Some {
            let j = choose|j: int| 0 <= j < s.len() - 1 && s.drop_first()[j] == find_by_id(s, id).unwrap();
            assert(s[j + 1] == s.drop_first()[j]);
        }
    }
}

/// In a sorted store each file is stored once, so a lookup of a stored song's
/// file finds that song.
proof fn lemma_lookup_stored(s: Seq<SongView>, j: int)
    requires
        strictly_sorted(s),
        0 <= j < s.len(),
    ensures
        lookup(s, s[j].file) == Some(s[j]),
{
    assert forall|i: int| 0 <= i < j implies s[i].file != s[j].file by {
        assert(lex_lt(song_key(s[i]), song_key(s[j])));
        if s[i].file == s[j].file {
            lemma_lex_lt_irreflexive(song_key(s[j]));
        }
    }
    lemma_lookup_at(s, s[j].file, j);
}

/// Storing every song of a sorted store, in order, into an empty store gives
/// that store back.
proof fn lemma_insert_all_sorted(s: Seq<SongView>)
    requires
        strictly_sorted(s),
    ensures
        insert_all(Seq::empty(), all_present(s)) == s,
    decreases s.len(),
{
    let items = all_present(s);
    if s.len() == 0 {
        assert(items.len() == 0);
    } else {
        let d = s.drop_last();
        assert(items.drop_last() =~= all_present(d));
        assert(items.last() == Some(s.last()));
        lemma_insert_all_sorted(d);
        lemma_sorted_insert_at(d, s.last(), d.len() as int);
        assert(d.insert(d.len() as int, s.last()) =~= s);
    }
}

/// Storing a song makes a lookup of its file find that song, and leaves what
/// a lookup of any other file finds as it was.
pub proof fn law_stored_song_is_found(s: Seq<SongView>, x: SongView, k: Seq<char>)
    ensures
        lookup(sorted_insert(s, x), x.file) == Some(x),
        k != x.file ==> lookup(sorted_insert(s, x), k) == lookup(s, k),
    decreases s.len(),
{
    let t = sorted_insert(s, x);
    if s.len() == 0 {
        assert(t[0] == x);
        assert(t.drop_first() =~= Seq::<SongView>::empty());
        assert(lookup(t.drop_first(), k) is None);
    } else if song_key(s[0]) == song_key(x) {
        lemma_file_key_injective(s[0].file, x.file);
        assert(t[0] == x);
        assert(t.drop_first() =~= s.drop_first());
    } else if lex_lt(song_key(x), song_key(s[0])) {
        assert(t[0] == x);
        assert(t.drop_first() =~= s);
    } else {
        law_stored_song_is_found(s.drop_first(), x, k);
        assert(t[0] == s[0]);
        assert(t.drop_first() =~= sorted_insert(s.drop_first(), x));
    }
}

/// The last present item whose file is `k`, if any.
pub open spec fn last_with_file(items: Seq<Option<SongView>>, k: Seq<char>) -> Option<SongView>
    decreases items.len(),
{
    if items.len() == 0 {
        None
    } else {
        match items.last() {
            Some(x) => if x.file == k {
                Some(x)
            } else {
                last_with_file(items.drop_last(), k)
            },
            None => last_with_file(items.drop_last(), k),
        }
    }
}

/// After storing items into an empty store, a lookup of a file finds the last
/// item given with that file; and the first given file is where a queue with
/// no explicitly current key starts, with no current song when no item is
/// present.
pub proof fn law_replace_all_keeps_last_of_each_file(q: PlaybackQueue, items: Seq<Option<SongView>>, k: Seq<char>)
    requires
        q.entries() == insert_all(Seq::empty(), items),
        q.keys() == present_files(items),
    ensures
        lookup(q.entries(), k) == last_with_file(items, k),
        q.current() is None && present_files(items).len() > 0 ==> q.current_song() == last_with_file(
            items,
            present_files(items)[0],
        ),
        q.current() is None && present_files(items).len() == 0 ==> q.current_song() is None,
{
    lemma_insert_all_lookup(items, k);
    if present_files(items).len() > 0 {
        lemma_insert_all_lookup(items, present_files(items)[0]);
    } else {
        law_replace_all_files(q, items);
        if q.entries().len() > 0 {
            assert(files_of(q.entries()).to_set().contains(files_of(q.entries())[0]));
            assert(present_files(items).to_set().contains(files_of(q.entries())[0]));
        }
    }
}

/// A lookup after storing items into an empty store finds the last item given
/// with the file.
proof fn lemma_insert_all_lookup(items: Seq<Option<SongView>>, k: Seq<char>)
    ensures
        lookup(insert_all(Seq::empty(), items), k) == last_with_file(items, k),
    decreases items.len(),
{
    if items.len() > 0 {
        lemma_insert_all_lookup(items.drop_last(), k);
        match items.last() {
            Some(x) => {
                law_stored_song_is_found(insert_all(Seq::empty(), items.drop_last()), x, k);
            },
            None => {},
        }
    }
}

/// A file is among the stored files exactly when a lookup of it finds a song.
proof fn lemma_files_of_contains(s: Seq<SongView>, k: Seq<char>)
    ensures
        files_of(s).to_set().contains(k) == (lookup(s, k) is Some),
{
    lemma_lookup_some(s, k);
    if files_of(s).to_set().contains(k) {
        assert(files_of(s).contains(k));
        let i = choose|i: int| 0 <= i < files_of(s).len() && files_of(s)[i] == k;
        assert(s[i].file == k);
    }
    if lookup(s, k) is Some {
        let i = choose|i: int| 0 <= i < s.len() && s[i].file == k;
        assert(files_of(s)[i] == k);
        assert(files_of(s).contains(k));
    }
}

/// A file is among the present items' files exactly when some present item has it.
proof fn lemma_present_files_contains(items: Seq<Option<SongView>>, k: Seq<char>)
    ensures
        present_files(items).contains(k) == (last_with_file(items, k) is Some),
    decreases items.len(),
{
    if items.len() > 0 {
        let d = items.drop_last();
        lemma_present_files_contains(d, k);
        let pd = present_files(d);
        match items.last() {
            Some(x) => {
                if pd.push(x.file).contains(k) && x.file != k {
                    let i = choose|i: int| 0 <= i < pd.len() + 1 && pd.push(x.file)[i] == k;
                    assert(pd[i] == k);
                }
                if pd.contains(k) {
                    let i = choose|i: int| 0 <= i < pd.len() && pd[i] == k;
                    assert(pd.push(x.file)[i] == k);
                }
                if x.file == k {
                    assert(pd.push(x.file)[pd.len() as int] == k);
                }
            },
            None => {},
        }
    }
}

/// Adding a song makes the stored files those before and the song's file.
pub proof fn law_add_song_files(q0: PlaybackQueue, q1: PlaybackQueue, song: SongView)
    requires
        q1.entries() == sorted_insert(q0.entries(), song),
    ensures
        files_of(q1.entries()).to_set() == files_of(q0.entries()).to_set().insert(song.file),
{
    assert forall|k: Seq<char>|
        files_of(q1.entries()).to_set().contains(k) == files_of(q0.entries()).to_set().insert(song.file).contains(k) by {
        law_stored_song_is_found(q0.entries(), song, k);
        lemma_files_of_contains(q1.entries(), k);
        lemma_files_of_contains(q0.entries(), k);
    }
    assert(files_of(q1.entries()).to_set() =~= files_of(q0.entries()).to_set().insert(song.file));
}

/// After `replace_all`, the stored files are exactly the files of the present
/// items: every earlier song is gone and missing items are skipped.
pub proof fn law_replace_all_files(q: PlaybackQueue, items: Seq<Option<SongView>>)
    requires
        q.entries() == insert_all(Seq::empty(), items),
    ensures
        files_of(q.entries()).to_set() == present_files(items).to_set(),
{
    assert forall|k: Seq<char>| files_of(q.entries()).to_set().contains(k) == present_files(items).to_set().contains(k) by {
        lemma_insert_all_lookup(items, k);
        lemma_files_of_contains(q.entries(), k);
        lemma_present_files_contains(items, k);
    }
    assert(files_of(q.entries()).to_set() =~= present_files(items).to_set());
}

/// The stored songs (as `get_all_songs` gives them) come in strictly
/// increasing byte order of their files, so each file is stored once.
pub proof fn law_stored_songs_in_key_order(q: PlaybackQueue, songs: Seq<SongView>)
    requires
        q.wf(),
        songs == q.entries(),
    ensures
        forall|i: int, j: int| 0 <= i < j < songs.len() ==> lex_lt(file_key(songs[i].file), file_key(songs[j].file)),
        songs.map_values(|s: SongView| s.file).no_duplicates(),
{
    assert forall|i: int, j: int| 0 <= i < j < songs.len() implies lex_lt(
        file_key(songs[i].file),
        file_key(songs[j].file),
    ) by {
        assert(lex_lt(song_key(songs[i]), song_key(songs[j])));
    }
    let f = songs.map_values(|s: SongView| s.file);
    assert forall|i: int, j: int| 0 <= i < f.len() && 0 <= j < f.len() && i != j implies f[i] != f[j] by {
        let (a, b) = if i < j { (i, j) } else { (j, i) };
        assert(lex_lt(song_key(songs[a]), song_key(songs[b])));
        if f[i] == f[j] {
            lemma_lex_lt_irreflexive(song_key(songs[a]));
        }
    }
}

/// Without random "next" and with no file added twice, moving to the previous
/// song right after a move to the next song succeeded makes the song that
/// counted as current before current again.
pub proof fn law_previous_undoes_next(
    q0: PlaybackQueue,
    q1: PlaybackQueue,
    q2: PlaybackQueue,
    r1: bool,
    r2: bool,
)
    requires
        !q0.is_random(),
        q0.keys().no_duplicates(),
        q1.same_but_current(&q0),
        next_move(q0, q1, r1),
        r1,
        q2.same_but_current(&q1),
        previous_move(q1, q2, r2),
    ensures
        r2,
        q2.current() == q0.selected_key(),
        q2.same_but_current(&q0),
{
    let k = q0.selected_key().unwrap();
    lemma_position_of(q0.keys(), k);
    let p = position_of(q0.keys(), k);
    lemma_position_of_distinct(q0.keys(), p + 1);
}

/// After a move to a song identifier succeeded, the current song is the first
/// stored song (in key order) with that identifier.
pub proof fn law_move_to_then_current_song(q0: PlaybackQueue, q1: PlaybackQueue, id: Seq<char>, r: bool)
    requires
        q0.wf(),
        q1.same_but_current(&q0),
        move_to_id(q0, q1, id, r),
        r,
    ensures
        q1.current_song() == find_by_id(q0.entries(), id),
        q1.current_song() matches Some(s) && s.id == id,
{
    lemma_find_by_id_index(q0.entries(), id);
    let v = find_by_id(q0.entries(), id).unwrap();
    let j = choose|j: int| 0 <= j < q0.entries().len() && q0.entries()[j] == v;
    lemma_lookup_stored(q0.entries(), j);
}

/// Restoring a queue from its stored songs (in key order), its explicitly
/// current key and its random setting gives back the same stored songs and,
/// when a key was made current, the same current song.
pub proof fn law_restore_keeps_state(q: PlaybackQueue, restored: PlaybackQueue)
    requires
        q.wf(),
        restored.entries() == insert_all(Seq::empty(), all_present(q.entries())),
        restored.current() == q.current(),
        restored.is_random() == q.is_random(),
    ensures
        restored.entries() == q.entries(),
        q.current() is Some ==> restored.current_song() == q.current_song(),
        restored.is_random() == q.is_random(),
{
    lemma_insert_all_sorted(q.entries());
}

} // verus!
