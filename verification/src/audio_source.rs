use vstd::prelude::*;

use crate::song::opt_view;
use crate::text::{chars_equal, eq_ignore_ascii_case, eq_ignore_ascii_case_chars, push_str, starts_with, starts_with_chars, to_chars};

verus! {

/// Whether `path` names a stream to fetch over HTTP(S) rather than a file.
pub fn is_http_stream(path: &str) -> (r: bool)
    ensures
        r == starts_with(path@, "http"@),
{
    starts_with_chars(&to_chars(path), &to_chars("http"))
}

/// `dir` joined with `path` as a file system path: an absolute `path` stands
/// alone, else a '/' separates the two unless `dir` is empty or ends with one
/// (what `Path::join` gives on Unix).
pub open spec fn join_path(dir: Seq<char>, path: Seq<char>) -> Seq<char> {
    if path.len() > 0 && path[0] == '/' {
        path
    } else if dir.len() == 0 || dir.last() == '/' {
        dir + path
    } else {
        dir + seq!['/'] + path
    }
}

/// Joins `dir` and `path` (see `join_path`).
pub fn join(dir: &String, path: &str) -> (r: String)
    ensures
        r@ == join_path(dir@, path@),
{
    let p = to_chars(path);
    if p.len() > 0 && p[0] == '/' {
        return path.to_owned();
    }
    let d = to_chars(dir.as_str());
    let mut r = dir.clone();
    if d.len() > 0 && d[d.len() - 1] != '/' {
        push_str(&mut r, "/");
        proof { reveal_strlit("/"); }
    }
    push_str(&mut r, path);
    r
}

/// The extension of the file that `path` names: the part of its file name
/// after the last '.', if the file name has a '.' that does not begin it.
pub uninterp spec fn path_extension(path: Seq<char>) -> Option<Seq<char>>;

/// The extension of `path` by std's `Path::extension`, as a string. The result
/// is stated only as the name `path_extension` of the path: the component
/// rules of `Path` are not written out here.
#[verifier::external_body]
fn extension_of(path: &str) -> (r: Option<String>)
    ensures
        match r {
            Some(e) => path_extension(path@) == Some(e@),
            None => path_extension(path@) is None,
        },
{
    std::path::Path::new(path).extension().and_then(|e| e.to_str()).map(|e| e.to_string())
}

/// Whether something exists at `path` on disk (`Path::exists`). What is on disk
/// is not known here, so nothing is stated of the result.
#[verifier::external_body]
fn path_exists(path: &str) -> bool {
    std::path::Path::new(path).exists()
}

/// The path is that of an APE file: its extension is "ape" in any case.
pub open spec fn is_ape_path(p: Seq<char>) -> bool {
    path_extension(p) matches Some(e) && eq_ignore_ascii_case(e, "ape"@)
}

/// Whether the path is that of an APE file.
pub fn has_ape_extension(path: &str) -> (r: bool)
    ensures
        r == is_ape_path(path@),
{
    match extension_of(path) {
        Some(e) => eq_ignore_ascii_case_chars(&to_chars(e.as_str()), &to_chars("ape")),
        None => false,
    }
}

pub open spec fn dir_views(dirs: Seq<String>) -> Seq<Seq<char>> {
    dirs.map_values(|d: String| d@)
}

/// The join of `path` with the first music directory (in order) where it
/// names an APE file that `on_disk` marks as present, if any.
pub open spec fn first_ape_found(path: Seq<char>, dirs: Seq<Seq<char>>, on_disk: Seq<bool>) -> Option<Seq<char>>
    decreases dirs.len(),
{
    if dirs.len() == 0 {
        None
    } else {
        let p = join_path(dirs[0], path);
        if is_ape_path(p) && on_disk[0] {
            Some(p)
        } else {
            first_ape_found(path, dirs.drop_first(), on_disk.drop_first())
        }
    }
}

/// Finds `path_str` as an APE file in the music directories, given for each
/// directory whether the joined path is present on disk.
pub fn resolve_ape_path_among(path_str: &str, music_dirs: &[String], on_disk: &[bool]) -> (r: Option<String>)
    requires
        on_disk@.len() == music_dirs@.len(),
    ensures
        opt_view(r) == first_ape_found(path_str@, dir_views(music_dirs@), on_disk@),
{
    let ghost dv = dir_views(music_dirs@);
    let mut i: usize = 0;
    assert(dv.skip(0) =~= dv);
    assert(on_disk@.skip(0) =~= on_disk@);
    while i < music_dirs.len()
        invariant
            i <= music_dirs.len(),
            on_disk@.len() == music_dirs@.len(),
            dv == dir_views(music_dirs@),
            first_ape_found(path_str@, dv, on_disk@) == first_ape_found(
                path_str@,
                dv.skip(i as int),
                on_disk@.skip(i as int),
            ),
        decreases music_dirs.len() - i,
    {
        let path = join(&music_dirs[i], path_str);
        assert(dv.skip(i as int)[0] == music_dirs@[i as int]@);
        assert(on_disk@.skip(i as int)[0] == on_disk@[i as int]);
        assert(dv.skip(i as int).drop_first() =~= dv.skip(i + 1));
        assert(on_disk@.skip(i as int).drop_first() =~= on_disk@.skip(i + 1));
        if has_ape_extension(path.as_str()) && on_disk[i] {
            return Some(path);
        }
        i = i + 1;
    }
    None
}

/// The first place where `path_str` exists on disk as an APE file, trying each
/// music directory in order. What is on disk is not known here: the result is
/// what `resolve_ape_path_among` gives for some presence of the joined paths.
pub fn resolve_ape_path(path_str: &str, music_dirs: &[String]) -> (r: Option<String>)
    ensures
        exists|on_disk: Seq<bool>|
            on_disk.len() == music_dirs@.len() && opt_view(r) == first_ape_found(
                path_str@,
                dir_views(music_dirs@),
                on_disk,
            ),
{
    let mut on_disk: Vec<bool> = Vec::new();
    let mut found = false;
    let mut i: usize = 0;
    while i < music_dirs.len()
        invariant
            i <= music_dirs.len(),
            on_disk@.len() == i,
        decreases music_dirs.len() - i,
    {
        let path = join(&music_dirs[i], path_str);
        let here = !found && has_ape_extension(path.as_str()) && path_exists(path.as_str());
        if here {
            found = true;
        }
        on_disk.push(here);
        i = i + 1;
    }
    let r = resolve_ape_path_among(path_str, music_dirs, &on_disk);
    assert(on_disk@.len() == music_dirs@.len() && opt_view(r) == first_ape_found(path_str@, dir_views(music_dirs@), on_disk@));
    r
}

/// The file extension a stream's content type suggests to the format probe.
pub open spec fn stream_extension_spec(content_type: Seq<char>) -> Option<Seq<char>> {
    if content_type == "audio/mpeg"@ {
        Some("mp3"@)
    } else if content_type == "audio/aac"@ || content_type == "audio/aacp"@ || content_type == "audio/x-aac"@ {
        Some("aac"@)
    } else if content_type == "audio/ogg"@ || content_type == "application/ogg"@ {
        Some("ogg"@)
    } else if content_type == "audio/flac"@ || content_type == "audio/x-flac"@ {
        Some("flac"@)
    } else if content_type == "audio/wav"@ || content_type == "audio/x-wav"@ {
        Some("wav"@)
    } else if content_type == "audio/mp4"@ || content_type == "audio/x-m4a"@ {
        Some("m4a"@)
    } else {
        None
    }
}

fn is_text(cs: &Vec<char>, lit: &str) -> (r: bool)
    ensures
        r == (cs@ == lit@),
{
    chars_equal(cs, &to_chars(lit))
}

/// The file extension for a stream's content type (see `stream_extension_spec`).
pub fn stream_extension(content_type: &str) -> (r: Option<&'static str>)
    ensures
        match r {
            Some(e) => stream_extension_spec(content_type@) == Some(e@),
            None => stream_extension_spec(content_type@) is None,
        },
{
    let c = to_chars(content_type);
    if is_text(&c, "audio/mpeg") {
        Some("mp3")
    } else if is_text(&c, "audio/aac") || is_text(&c, "audio/aacp") || is_text(&c, "audio/x-aac") {
        Some("aac")
    } else if is_text(&c, "audio/ogg") || is_text(&c, "application/ogg") {
        Some("ogg")
    } else if is_text(&c, "audio/flac") || is_text(&c, "audio/x-flac") {
        Some("flac")
    } else if is_text(&c, "audio/wav") || is_text(&c, "audio/x-wav") {
        Some("wav")
    } else if is_text(&c, "audio/mp4") || is_text(&c, "audio/x-m4a") {
        Some("m4a")
    } else {
        None
    }
}

} // verus!
