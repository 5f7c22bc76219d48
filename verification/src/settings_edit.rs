use vstd::prelude::*;

use crate::text::{chars_equal, push_str, to_chars};
use crate::ui::DspFilterType;

verus! {

// ------------------------------------------------------------------------
// The audio interface
// ------------------------------------------------------------------------

/// How the volume is controlled.
#[derive(Debug, Clone, Copy, PartialEq, Eq, Structural)]
pub enum VolumeCtrl {
    Alsa,
    Pipewire,
    /// Any other kind of control.
    Other,
}

/// The settings that choosing an audio interface changes.
pub struct OutputSelection {
    /// The browser plays the audio itself.
    pub local_browser_playback: bool,
    /// The sound card played on.
    pub card_id: String,
    pub volume_ctrl: VolumeCtrl,
}

/// Whether `value` chooses the browser.
pub open spec fn chooses_browser(value: Seq<char>) -> bool {
    value == "browser"@
}

/// Chooses an audio interface: "browser" lets the browser play and leaves
/// the card and the volume control; any other value is the card to play on,
/// with PipeWire volume control for "pipewire" and ALSA control otherwise.
pub fn select_audio_interface(sel: &mut OutputSelection, value: &str)
    ensures
        chooses_browser(value@) ==> final(sel).local_browser_playback && final(sel).card_id@ == old(sel).card_id@
            && final(sel).volume_ctrl == old(sel).volume_ctrl,
        !chooses_browser(value@) ==> !final(sel).local_browser_playback && final(sel).card_id@ == value@
            && final(sel).volume_ctrl == (if value@ == "pipewire"@ {
                VolumeCtrl::Pipewire
            } else {
                VolumeCtrl::Alsa
            }),
{
    let v = to_chars(value);
    if chars_equal(&v, &to_chars("browser")) {
        sel.local_browser_playback = true;
    } else {
        sel.local_browser_playback = false;
        sel.card_id = value.to_string();
        if chars_equal(&v, &to_chars("pipewire")) {
            sel.volume_ctrl = VolumeCtrl::Pipewire;
        } else {
            sel.volume_ctrl = VolumeCtrl::Alsa;
        }
    }
}

// ------------------------------------------------------------------------
// Network mounts
// ------------------------------------------------------------------------

/// A network share mounted for the music library: its name and, when set,
/// where it is mounted.
pub struct Mount {
    pub name: String,
    pub mount_point: Option<String>,
}

/// A mount's name and mount point.
pub open spec fn mount_view(m: Mount) -> (Seq<char>, Option<Seq<char>>) {
    (m.name@, match m.mount_point {
        Some(p) => Some(p@),
        None => None,
    })
}

/// The mounts' names and mount points.
pub open spec fn mount_views(ms: Seq<Mount>) -> Seq<(Seq<char>, Option<Seq<char>>)> {
    ms.map_values(|m: Mount| mount_view(m))
}

/// Where a mount is mounted: its own mount point, else `/mnt/rsplayer/` and its name.
pub open spec fn mount_point_of(m: (Seq<char>, Option<Seq<char>>)) -> Seq<char> {
    match m.1 {
        Some(p) => p,
        None => "/mnt/rsplayer/"@ + m.0,
    }
}

/// The mount point of the first mount named `name`, or the empty text when
/// there is none.
pub open spec fn named_mount_point(ms: Seq<(Seq<char>, Option<Seq<char>>)>, name: Seq<char>) -> Seq<char>
    decreases ms.len(),
{
    if ms.len() == 0 {
        Seq::empty()
    } else if ms[0].0 == name {
        mount_point_of(ms[0])
    } else {
        named_mount_point(ms.drop_first(), name)
    }
}

/// The mounts not named `name`, in order.
pub open spec fn mounts_without(ms: Seq<(Seq<char>, Option<Seq<char>>)>, name: Seq<char>) -> Seq<(
    Seq<char>,
    Option<Seq<char>>,
)>
    decreases ms.len(),
{
    if ms.len() == 0 {
        Seq::empty()
    } else {
        let before = mounts_without(ms.drop_last(), name);
        if ms.last().0 == name {
            before
        } else {
            before.push(ms.last())
        }
    }
}

/// The texts other than `d`, in order.
pub open spec fn texts_without(ds: Seq<Seq<char>>, d: Seq<char>) -> Seq<Seq<char>>
    decreases ds.len(),
{
    if ds.len() == 0 {
        Seq::empty()
    } else {
        let before = texts_without(ds.drop_last(), d);
        if ds.last() == d {
            before
        } else {
            before.push(ds.last())
        }
    }
}

/// The texts' characters.
pub open spec fn text_views(ds: Seq<String>) -> Seq<Seq<char>> {
    ds.map_values(|d: String| d@)
}

fn copy_opt(o: &Option<String>) -> (r: Option<String>)
    ensures
        r == *o,
{
    match o {
        Some(s) => Some(s.clone()),
        None => None,
    }
}

/// Where a mount is mounted (see `mount_point_of`).
pub fn effective_mount_point(m: &Mount) -> (r: String)
    ensures
        r@ == mount_point_of(mount_view(*m)),
{
    match &m.mount_point {
        Some(p) => p.clone(),
        None => {
            let mut r = "/mnt/rsplayer/".to_string();
            push_str(&mut r, m.name.as_str());
            r
        },
    }
}

fn text_eq(a: &String, b: &String) -> (r: bool)
    ensures
        r == (a@ == b@),
{
    chars_equal(&to_chars(a.as_str()), &to_chars(b.as_str()))
}

/// Removes the mount named `name`, and with it the music directory at its
/// mount point (see `named_mount_point`).
pub fn remove_mount(mounts: &mut Vec<Mount>, music_dirs: &mut Vec<String>, name: &String)
    ensures
        mount_views(final(mounts)@) == mounts_without(mount_views(old(mounts)@), name@),
        text_views(final(music_dirs)@) == texts_without(
            text_views(old(music_dirs)@),
            named_mount_point(mount_views(old(mounts)@), name@),
        ),
{
    let ghost mv = mount_views(mounts@);
    let mut point = String::new();
    let mut found = false;
    let mut i: usize = 0;
    while i < mounts.len() && !found
        invariant
            i <= mounts@.len(),
            mv == mount_views(mounts@),
            forall|j: int| 0 <= j < i ==> mv[j].0 != name@,
            found ==> i < mounts@.len() && mv[i as int].0 == name@ && point@ == mount_point_of(mv[i as int]),
            !found ==> point@ == Seq::<char>::empty(),
        decreases mounts@.len() - i, if found { 0int } else { 1int },
    {
        if text_eq(&mounts[i].name, name) {
            point = effective_mount_point(&mounts[i]);
            found = true;
        } else {
            i = i + 1;
        }
    }
    proof {
        lemma_named_mount_point_at(mv, name@, i as int);
    }
    assert(point@ == named_mount_point(mv, name@));
    let mut kept: Vec<Mount> = Vec::new();
    let mut k: usize = 0;
    while k < mounts.len()
        invariant
            k <= mounts@.len(),
            mv == mount_views(mounts@),
            mount_views(kept@) == mounts_without(mv.take(k as int), name@),
        decreases mounts@.len() - k,
    {
        proof {
            assert(mv.take(k + 1).drop_last() =~= mv.take(k as int));
        }
        if !text_eq(&mounts[k].name, name) {
            let m = Mount { name: mounts[k].name.clone(), mount_point: copy_opt(&mounts[k].mount_point) };
            let ghost before = mount_views(kept@);
            kept.push(m);
            assert(mount_views(kept@) =~= before.push(mv[k as int]));
        }
        k = k + 1;
    }
    proof {
        assert(mv.take(k as int) =~= mv);
    }
    let ghost dv = text_views(music_dirs@);
    let mut dirs: Vec<String> = Vec::new();
    let mut j: usize = 0;
    while j < music_dirs.len()
        invariant
            j <= music_dirs@.len(),
            dv == text_views(music_dirs@),
            text_views(dirs@) == texts_without(dv.take(j as int), point@),
        decreases music_dirs@.len() - j,
    {
        proof {
            assert(dv.take(j + 1).drop_last() =~= dv.take(j as int));
        }
        if !text_eq(&music_dirs[j], &point) {
            let ghost before = text_views(dirs@);
            dirs.push(music_dirs[j].clone());
            assert(text_views(dirs@) =~= before.push(dv[j as int]));
        }
        j = j + 1;
    }
    proof {
        assert(dv.take(j as int) =~= dv);
    }
    *mounts = kept;
    *music_dirs = dirs;
}

proof fn lemma_named_mount_point_at(ms: Seq<(Seq<char>, Option<Seq<char>>)>, name: Seq<char>, i: int)
    requires
        0 <= i <= ms.len(),
        forall|j: int| 0 <= j < i ==> ms[j].0 != name,
        i < ms.len() ==> ms[i].0 == name,
    ensures
        named_mount_point(ms, name) == if i < ms.len() {
            mount_point_of(ms[i])
        } else {
            Seq::<char>::empty()
        },
    decreases ms.len(),
{
    if ms.len() > 0 && i > 0 {
        let rest = ms.drop_first();
        assert forall|j: int| 0 <= j < i - 1 implies rest[j].0 != name by {
            assert(rest[j] == ms[j + 1]);
        }
        lemma_named_mount_point_at(rest, name, i - 1);
    }
}

/// The mount point a new mount named `name` gets.
pub open spec fn new_mount_point(name: Seq<char>) -> Seq<char> {
    "/mnt/rsplayer/"@ + name
}

/// Adds a mount named `name` with no mount point of its own, and its mount
/// point as a music directory unless it is one already.
pub fn add_mount(mounts: &mut Vec<Mount>, music_dirs: &mut Vec<String>, name: &String)
    ensures
        mount_views(final(mounts)@) == mount_views(old(mounts)@).push((name@, None)),
        text_views(final(music_dirs)@) == if text_views(old(music_dirs)@).contains(new_mount_point(name@)) {
            text_views(old(music_dirs)@)
        } else {
            text_views(old(music_dirs)@).push(new_mount_point(name@))
        },
{
    let ghost mv = mount_views(mounts@);
    mounts.push(Mount { name: name.clone(), mount_point: None });
    assert(mount_views(mounts@) =~= mv.push((name@, None)));
    let mut point = "/mnt/rsplayer/".to_string();
    push_str(&mut point, name.as_str());
    let ghost dv = text_views(music_dirs@);
    let mut found = false;
    let mut j: usize = 0;
    while j < music_dirs.len()
        invariant
            j <= music_dirs@.len(),
            dv == text_views(music_dirs@),
            found == (exists|k: int| 0 <= k < j && dv[k] == point@),
        decreases music_dirs@.len() - j,
    {
        proof {
            assert(dv[j as int] == music_dirs@[j as int]@);
        }
        if text_eq(&music_dirs[j], &point) {
            found = true;
        }
        proof {
            if dv[j as int] == point@ {
                assert(0 <= j < j + 1 && dv[j as int] == point@);
            }
        }
        j = j + 1;
    }
    proof {
        if found {
            let k = choose|k: int| 0 <= k < j && dv[k] == point@;
            assert(dv.contains(point@));
        }
    }
    if !found {
        music_dirs.push(point);
        assert(text_views(music_dirs@) =~= dv.push(new_mount_point(name@)));
    }
}

// ------------------------------------------------------------------------
// Equalizer filters
// ------------------------------------------------------------------------

/// The kinds of equalizer filter a setting can hold.
#[derive(Debug, Clone, Copy, PartialEq, Eq, Structural)]
pub enum DspFilterKind {
    Peaking,
    LowShelf,
    HighShelf,
    LowPass,
    HighPass,
    BandPass,
    Notch,
    AllPass,
    LowPassFO,
    HighPassFO,
    LowShelfFO,
    HighShelfFO,
    Gain,
    LinkwitzTransform,
}

/// The type shown for a filter: its own, with a Linkwitz transform shown as a
/// gain.
pub open spec fn filter_type_spec(f: DspFilterKind) -> DspFilterType {
    match f {
        DspFilterKind::Peaking => DspFilterType::Peaking,
        DspFilterKind::LowShelf => DspFilterType::LowShelf,
        DspFilterKind::HighShelf => DspFilterType::HighShelf,
        DspFilterKind::LowPass => DspFilterType::LowPass,
        DspFilterKind::HighPass => DspFilterType::HighPass,
        DspFilterKind::BandPass => DspFilterType::BandPass,
        DspFilterKind::Notch => DspFilterType::Notch,
        DspFilterKind::AllPass => DspFilterType::AllPass,
        DspFilterKind::LowPassFO => DspFilterType::LowPassFO,
        DspFilterKind::HighPassFO => DspFilterType::HighPassFO,
        DspFilterKind::LowShelfFO => DspFilterType::LowShelfFO,
        DspFilterKind::HighShelfFO => DspFilterType::HighShelfFO,
        DspFilterKind::Gain => DspFilterType::Gain,
        DspFilterKind::LinkwitzTransform => DspFilterType::Gain,
    }
}

/// The type shown for a filter (see `filter_type_spec`).
pub fn filter_type_of(f: DspFilterKind) -> (r: DspFilterType)
    ensures
        r == filter_type_spec(f),
{
    match f {
        DspFilterKind::Peaking => DspFilterType::Peaking,
        DspFilterKind::LowShelf => DspFilterType::LowShelf,
        DspFilterKind::HighShelf => DspFilterType::HighShelf,
        DspFilterKind::LowPass => DspFilterType::LowPass,
        DspFilterKind::HighPass => DspFilterType::HighPass,
        DspFilterKind::BandPass => DspFilterType::BandPass,
        DspFilterKind::Notch => DspFilterType::Notch,
        DspFilterKind::AllPass => DspFilterType::AllPass,
        DspFilterKind::LowPassFO => DspFilterType::LowPassFO,
        DspFilterKind::HighPassFO => DspFilterType::HighPassFO,
        DspFilterKind::LowShelfFO => DspFilterType::LowShelfFO,
        DspFilterKind::HighShelfFO => DspFilterType::HighShelfFO,
        DspFilterKind::Gain => DspFilterType::Gain,
        DspFilterKind::LinkwitzTransform => DspFilterType::Gain,
    }
}

/// Removing a mount drops every music directory at its mount point, and
/// keeps every other one.
pub proof fn law_removed_mount_leaves_no_directory(
    dirs: Seq<Seq<char>>,
    mounts: Seq<(Seq<char>, Option<Seq<char>>)>,
    name: Seq<char>,
)
    ensures
        !texts_without(dirs, named_mount_point(mounts, name)).contains(named_mount_point(mounts, name)),
        forall|d: Seq<char>|
            dirs.contains(d) && d != named_mount_point(mounts, name) ==> #[trigger] texts_without(
                dirs,
                named_mount_point(mounts, name),
            ).contains(d),
{
    let p = named_mount_point(mounts, name);
    lemma_texts_without_contains(dirs, p);
}

proof fn lemma_texts_without_contains(dirs: Seq<Seq<char>>, p: Seq<char>)
    ensures
        forall|d: Seq<char>| #[trigger] texts_without(dirs, p).contains(d) <==> (dirs.contains(d) && d != p),
    decreases dirs.len(),
{
    if dirs.len() > 0 {
        let d0 = dirs.drop_last();
        let x = dirs.last();
        let t0 = texts_without(d0, p);
        let t = texts_without(dirs, p);
        lemma_texts_without_contains(d0, p);
        assert(t == if x == p { t0 } else { t0.push(x) });
        assert forall|d: Seq<char>| #[trigger] t.contains(d) <==> (dirs.contains(d) && d != p) by {
            if dirs.contains(d) && d != p {
                let k = choose|k: int| 0 <= k < dirs.len() && dirs[k] == d;
                if k < dirs.len() - 1 {
                    assert(d0[k] == d);
                    assert(t0.contains(d));
                    let m = choose|m: int| 0 <= m < t0.len() && t0[m] == d;
                    assert(t[m] == d);
                } else {
                    assert(x == d);
                    assert(t[t0.len() as int] == d);
                }
            }
            if t.contains(d) {
                let m = choose|m: int| 0 <= m < t.len() && t[m] == d;
                if m < t0.len() {
                    assert(t0[m] == d);
                    assert(t0.contains(d));
                    let k = choose|k: int| 0 <= k < d0.len() && d0[k] == d;
                    assert(dirs[k] == d);
                } else {
                    assert(x != p);
                    assert(d == x);
                    assert(dirs[dirs.len() - 1] == d);
                }
            }
        }
    } else {
        assert forall|d: Seq<char>| #[trigger] texts_without(dirs, p).contains(d) <==> (dirs.contains(d) && d != p) by {
            assert(texts_without(dirs, p) =~= Seq::<Seq<char>>::empty());
        }
    }
}

} // verus!
