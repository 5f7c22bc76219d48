use vstd::prelude::*;

verus! {

/// A song as the player knows it: the file it is read from, the identifier
/// the player gave it, and its descriptive tags.
#[derive(Clone, Debug)]
pub struct Song {
    pub id: String,
    pub file: String,
    pub title: Option<String>,
    pub artist: Option<String>,
    pub album: Option<String>,
    pub album_artist: Option<String>,
    pub genre: Option<String>,
    pub date: Option<String>,
    pub composer: Option<String>,
    pub performer: Option<String>,
    pub label: Option<String>,
    pub disc: Option<String>,
    pub track: Option<String>,
    pub last_modified: Option<String>,
    /// Duration in whole seconds.
    pub time: Option<u64>,
    /// Tags that have no field of their own, as (key, value) pairs with distinct keys.
    pub tags: Vec<(String, String)>,
    pub image_url: Option<String>,
    /// The identifier of the artwork embedded in the file, if any.
    pub image_id: Option<String>,
}

/// A copy of an optional string.
pub fn clone_opt_string(o: &Option<String>) -> (r: Option<String>)
    ensures
        r == *o,
{
    match o {
        Some(s) => Some(s.clone()),
        None => None,
    }
}

/// A copy of a list of string pairs.
pub fn clone_pairs(v: &Vec<(String, String)>) -> (r: Vec<(String, String)>)
    ensures
        r@ == v@,
{
    let mut r: Vec<(String, String)> = Vec::new();
    let mut i: usize = 0;
    while i < v.len()
        invariant
            i <= v.len(),
            r@ == v@.take(i as int),
        decreases v.len() - i,
    {
        let k = v[i].0.clone();
        let val = v[i].1.clone();
        r.push((k, val));
        i = i + 1;
        assert(r@ == v@.take(i as int));
    }
    assert(v@.take(v@.len() as int) == v@);
    r
}

/// The mathematical value of a song: its text fields as character sequences.
pub struct SongView {
    pub id: Seq<char>,
    pub file: Seq<char>,
    pub title: Option<Seq<char>>,
    pub artist: Option<Seq<char>>,
    pub album: Option<Seq<char>>,
    pub album_artist: Option<Seq<char>>,
    pub genre: Option<Seq<char>>,
    pub date: Option<Seq<char>>,
    pub composer: Option<Seq<char>>,
    pub performer: Option<Seq<char>>,
    pub label: Option<Seq<char>>,
    pub disc: Option<Seq<char>>,
    pub track: Option<Seq<char>>,
    pub last_modified: Option<Seq<char>>,
    pub time: Option<u64>,
    pub tags: Seq<(Seq<char>, Seq<char>)>,
    pub image_url: Option<Seq<char>>,
    pub image_id: Option<Seq<char>>,
}

pub open spec fn opt_view(o: Option<String>) -> Option<Seq<char>> {
    match o {
        Some(s) => Some(s@),
        None => None,
    }
}

pub open spec fn pair_views(v: Seq<(String, String)>) -> Seq<(Seq<char>, Seq<char>)> {
    v.map_values(|p: (String, String)| (p.0@, p.1@))
}

impl View for Song {
    type V = SongView;

    open spec fn view(&self) -> SongView {
        SongView {
            id: self.id@,
            file: self.file@,
            title: opt_view(self.title),
            artist: opt_view(self.artist),
            album: opt_view(self.album),
            album_artist: opt_view(self.album_artist),
            genre: opt_view(self.genre),
            date: opt_view(self.date),
            composer: opt_view(self.composer),
            performer: opt_view(self.performer),
            label: opt_view(self.label),
            disc: opt_view(self.disc),
            track: opt_view(self.track),
            last_modified: opt_view(self.last_modified),
            time: self.time,
            tags: pair_views(self.tags@),
            image_url: opt_view(self.image_url),
            image_id: opt_view(self.image_id),
        }
    }
}

impl SongView {
    /// The song with the given identifier and file and no other data.
    pub open spec fn bare(id: Seq<char>, file: Seq<char>) -> SongView {
        SongView {
            id,
            file,
            title: None,
            artist: None,
            album: None,
            album_artist: None,
            genre: None,
            date: None,
            composer: None,
            performer: None,
            label: None,
            disc: None,
            track: None,
            last_modified: None,
            time: None,
            tags: Seq::empty(),
            image_url: None,
            image_id: None,
        }
    }
}

impl Default for Song {
    /// A song with empty identifier and file and no tags.
    fn default() -> (s: Song)
        ensures
            s@ == SongView::bare(Seq::empty(), Seq::empty()),
    {
        Song::with_file(String::new(), String::new())
    }
}

impl Song {
    /// A song with the given file and identifier and no tags.
    pub fn with_file(id: String, file: String) -> (s: Song)
        ensures
            s@ == SongView::bare(id@, file@),
    {
        let s = Song {
            id,
            file,
            title: None,
            artist: None,
            album: None,
            album_artist: None,
            genre: None,
            date: None,
            composer: None,
            performer: None,
            label: None,
            disc: None,
            track: None,
            last_modified: None,
            time: None,
            tags: Vec::new(),
            image_url: None,
            image_id: None,
        };
        assert(pair_views(s.tags@) =~= Seq::<(Seq<char>, Seq<char>)>::empty());
        s
    }

    /// An exact copy of this song.
    pub fn copy(&self) -> (r: Song)
        ensures
            r@ == self@,
    {
        Song {
            id: self.id.clone(),
            file: self.file.clone(),
            title: clone_opt_string(&self.title),
            artist: clone_opt_string(&self.artist),
            album: clone_opt_string(&self.album),
            album_artist: clone_opt_string(&self.album_artist),
            genre: clone_opt_string(&self.genre),
            date: clone_opt_string(&self.date),
            composer: clone_opt_string(&self.composer),
            performer: clone_opt_string(&self.performer),
            label: clone_opt_string(&self.label),
            disc: clone_opt_string(&self.disc),
            track: clone_opt_string(&self.track),
            last_modified: clone_opt_string(&self.last_modified),
            time: self.time,
            tags: clone_pairs(&self.tags),
            image_url: clone_opt_string(&self.image_url),
            image_id: clone_opt_string(&self.image_id),
        }
    }
}

}
