use vstd::prelude::*;

use crate::song::{opt_view, Song};
use crate::text::{
    ascii_lower, decimal, format_decimal, from_chars, push_str, starts_with, starts_with_chars,
    string_push, sub_chars, to_ascii_lowercase_char, to_chars,
};

verus! {

/// The lyrics that the lyrics service answers with.
pub struct LrcLibResponse {
    pub plain_lyrics: Option<String>,
    pub synced_lyrics: Option<String>,
}

/// `n` (below 100) with at least two digits (`{:02}`).
pub open spec fn two_digits(n: nat) -> Seq<char> {
    if n < 10 {
        seq!['0'] + decimal(n)
    } else {
        decimal(n)
    }
}

/// A play time as "m:ss".
pub fn format_time(seconds: u64) -> (r: String)
    ensures
        r@ == decimal((seconds / 60) as nat) + seq![':'] + two_digits((seconds % 60) as nat),
{
    let mut r = format_decimal(seconds / 60);
    string_push(&mut r, ':');
    let s = seconds % 60;
    if s < 10 {
        string_push(&mut r, '0');
    }
    let ghost before = r@;
    push_str(&mut r, format_decimal(s).as_str());
    proof {
        if s < 10 {
            assert(before == decimal((seconds / 60) as nat) + seq![':'] + seq!['0']);
            assert(r@ =~= decimal((seconds / 60) as nat) + seq![':'] + (seq!['0'] + decimal(s as nat)));
        }
    }
    r
}

/// A total duration as days, hours and minutes, leaving out leading zero units.
pub open spec fn duration_text(secs: nat) -> Seq<char> {
    let days = secs / 86400;
    let hours = (secs % 86400) / 3600;
    let mins = (secs % 3600) / 60;
    if days > 0 {
        decimal(days) + seq!['d', ' '] + decimal(hours) + seq!['h', ' '] + decimal(mins) + seq!['m']
    } else if hours > 0 {
        decimal(hours) + seq!['h', ' '] + decimal(mins) + seq!['m']
    } else {
        decimal(mins) + seq!['m']
    }
}

/// Formats a total duration (see `duration_text`).
pub fn format_duration(secs: u64) -> (r: String)
    ensures
        r@ == duration_text(secs as nat),
{
    let days = secs / 86400;
    let hours = (secs % 86400) / 3600;
    let mins = (secs % 3600) / 60;
    let mut r = String::new();
    if days > 0 {
        push_str(&mut r, format_decimal(days).as_str());
        string_push(&mut r, 'd');
        string_push(&mut r, ' ');
    }
    if days > 0 || hours > 0 {
        push_str(&mut r, format_decimal(hours).as_str());
        string_push(&mut r, 'h');
        string_push(&mut r, ' ');
    }
    push_str(&mut r, format_decimal(mins).as_str());
    string_push(&mut r, 'm');
    assert(r@ =~= duration_text(secs as nat));
    r
}

/// Whether `c` is alphabetic or numeric in Unicode (what `char::is_alphanumeric` tests).
pub uninterp spec fn is_alphanumeric(c: char) -> bool;

/// Whether `c` is alphanumeric, by std's `char::is_alphanumeric`. The result is
/// stated only as the name `is_alphanumeric` of `c`: the Unicode tables are not
/// written out here.
#[verifier::external_body]
fn char_is_alphanumeric(c: char) -> (r: bool)
    ensures
        r == is_alphanumeric(c),
{
    c.is_alphanumeric()
}

/// The character that a label character becomes in an element identifier.
pub open spec fn slug_char(c: char) -> char {
    if is_alphanumeric(c) {
        ascii_lower(c)
    } else {
        '-'
    }
}

/// A label turned into a safe identifier fragment: letters and digits kept
/// (ASCII ones in lower case), every other character a '-'.
pub fn pl_slug(s: &str) -> (r: String)
    ensures
        r@ == s@.map_values(|c: char| slug_char(c)),
{
    let cs = to_chars(s);
    let mut out: Vec<char> = Vec::new();
    let mut i: usize = 0;
    while i < cs.len()
        invariant
            i <= cs.len(),
            cs@ == s@,
            out@ == cs@.take(i as int).map_values(|c: char| slug_char(c)),
        decreases cs.len() - i,
    {
        let c = cs[i];
        let m = if char_is_alphanumeric(c) { to_ascii_lowercase_char(c) } else { '-' };
        out.push(m);
        i = i + 1;
        assert(out@ =~= cs@.take(i as int).map_values(|c: char| slug_char(c)));
    }
    assert(cs@.take(i as int) =~= cs@);
    from_chars(&out)
}

/// Index of the first occurrence of `pat` in `s`, or -1.
pub open spec fn index_of_str(s: Seq<char>, pat: Seq<char>) -> int
    decreases s.len(),
{
    if starts_with(s, pat) {
        0
    } else if s.len() == 0 {
        -1
    } else {
        let r = index_of_str(s.drop_first(), pat);
        if r < 0 {
            -1
        } else {
            r + 1
        }
    }
}

proof fn lemma_index_of_str_at(s: Seq<char>, pat: Seq<char>, j: int)
    requires
        0 <= j <= s.len(),
        forall|i: int| 0 <= i < j ==> !starts_with(#[trigger] s.skip(i), pat),
        j < s.len() ==> starts_with(s.skip(j), pat),
    ensures
        index_of_str(s, pat) == (if starts_with(s.skip(j), pat) { j } else { -1 }),
    decreases s.len(),
{
    if j == 0 {
        assert(s.skip(0) =~= s);
    } else {
        assert(s.skip(0) =~= s);
        assert(!starts_with(s.skip(0), pat));
        let rest = s.drop_first();
        assert forall|i: int| 0 <= i < j - 1 implies !starts_with(#[trigger] rest.skip(i), pat) by {
            assert(rest.skip(i) =~= s.skip(i + 1));
        }
        assert(rest.skip(j - 1) =~= s.skip(j));
        lemma_index_of_str_at(rest, pat, j - 1);
    }
}

/// Index of the first occurrence of `pat` in `s`, if any.
fn find_str(s: &[char], pat: &[char]) -> (r: Option<usize>)
    ensures
        match r {
            Some(i) => i <= s@.len() && index_of_str(s@, pat@) == i && starts_with(s@.skip(i as int), pat@),
            None => index_of_str(s@, pat@) == -1,
        },
{
    let mut i: usize = 0;
    loop
        invariant
            i <= s.len(),
            forall|k: int| 0 <= k < i ==> !starts_with(#[trigger] s@.skip(k), pat@),
        decreases s.len() - i,
    {
        let rest = sub_chars(s, i, s.len());
        assert(rest@ =~= s@.skip(i as int));
        if starts_with_chars(&rest, pat) {
            proof { lemma_index_of_str_at(s@, pat@, i as int); }
            return Some(i);
        }
        if i == s.len() {
            proof { lemma_index_of_str_at(s@, pat@, i as int); }
            return None;
        }
        i = i + 1;
    }
}

/// The search term of a page address: in the first path part holding
/// "?search=", what follows its first occurrence.
pub open spec fn search_term_of(parts: Seq<Seq<char>>) -> Option<Seq<char>>
    decreases parts.len(),
{
    if parts.len() == 0 {
        None
    } else {
        let i = index_of_str(parts[0], "?search="@);
        if i >= 0 {
            Some(parts[0].skip(i + "?search="@.len()))
        } else {
            search_term_of(parts.drop_first())
        }
    }
}

pub open spec fn part_views(parts: Seq<String>) -> Seq<Seq<char>> {
    parts.map_values(|p: String| p@)
}

/// The search term in the path parts of a page address, if any.
pub fn get_search_term(hash_path: &[String]) -> (r: Option<String>)
    ensures
        match r {
            Some(t) => search_term_of(part_views(hash_path@)) == Some(t@),
            None => search_term_of(part_views(hash_path@)) is None,
        },
{
    let pat = to_chars("?search=");
    let ghost pv = part_views(hash_path@);
    let mut i: usize = 0;
    assert(pv.skip(0) =~= pv);
    while i < hash_path.len()
        invariant
            i <= hash_path.len(),
            pat@ == "?search="@,
            pv == part_views(hash_path@),
            search_term_of(pv) == search_term_of(pv.skip(i as int)),
        decreases hash_path.len() - i,
    {
        let p = to_chars(hash_path[i].as_str());
        assert(pv.skip(i as int)[0] == p@);
        assert(pv.skip(i as int).drop_first() =~= pv.skip(i + 1));
        match find_str(&p, &pat) {
            Some(k) => {
                assert(k + pat.len() <= p.len());
                let after = sub_chars(&p, k + pat.len(), p.len());
                assert(after@ =~= p@.skip(k + pat@.len()));
                return Some(from_chars(&after));
            },
            None => {},
        }
        i = i + 1;
    }
    None
}

/// The kinds of equalizer filter that the settings page offers.
#[derive(Debug, Clone, PartialEq, Eq, Structural)]
pub enum DspFilterType {
    Peaking,
    LowShelf,
    HighShelf,
    LowPass,
    HighPass,
    BandPass,
    Notch,
    AllPass,
    LowPassFO,
    HighPassFO,
    LowShelfFO,
    HighShelfFO,
    Gain,
}

pub open spec fn filter_label(t: DspFilterType) -> Seq<char> {
    match t {
        DspFilterType::Peaking => "Peaking"@,
        DspFilterType::LowShelf => "LowShelf"@,
        DspFilterType::HighShelf => "HighShelf"@,
        DspFilterType::LowPass => "LowPass"@,
        DspFilterType::HighPass => "HighPass"@,
        DspFilterType::BandPass => "BandPass"@,
        DspFilterType::Notch => "Notch"@,
        DspFilterType::AllPass => "AllPass"@,
        DspFilterType::LowPassFO => "LowPassFO"@,
        DspFilterType::HighPassFO => "HighPassFO"@,
        DspFilterType::LowShelfFO => "LowShelfFO"@,
        DspFilterType::HighShelfFO => "HighShelfFO"@,
        DspFilterType::Gain => "Gain"@,
    }
}

impl DspFilterType {
    /// The name shown for the filter kind.
    pub fn label(&self) -> (r: &'static str)
        ensures
            r@ == filter_label(*self),
    {
        match self {
            DspFilterType::Peaking => "Peaking",
            DspFilterType::LowShelf => "LowShelf",
            DspFilterType::HighShelf => "HighShelf",
            DspFilterType::LowPass => "LowPass",
            DspFilterType::HighPass => "HighPass",
            DspFilterType::BandPass => "BandPass",
            DspFilterType::Notch => "Notch",
            DspFilterType::AllPass => "AllPass",
            DspFilterType::LowPassFO => "LowPassFO",
            DspFilterType::HighPassFO => "HighPassFO",
            DspFilterType::LowShelfFO => "LowShelfFO",
            DspFilterType::HighShelfFO => "HighShelfFO",
            DspFilterType::Gain => "Gain",
        }
    }
}

/// How a character is written inside HTML text: `&`, `<`, `>` and `"` as
/// entities, any other character as it is.
pub open spec fn html_escaped_char(c: char) -> Seq<char> {
    if c == '&' {
        "&amp;"@
    } else if c == '<' {
        "&lt;"@
    } else if c == '>' {
        "&gt;"@
    } else if c == '"' {
        "&quot;"@
    } else {
        seq![c]
    }
}

/// A text written for HTML, character by character.
pub open spec fn html_escaped(s: Seq<char>) -> Seq<char>
    decreases s.len(),
{
    if s.len() == 0 {
        Seq::empty()
    } else {
        html_escaped(s.drop_last()) + html_escaped_char(s.last())
    }
}

/// Escapes a message so that it shows as it is inside HTML (see `html_escaped`).
pub fn html_escape(message: &str) -> (r: String)
    ensures
        r@ == html_escaped(message@),
{
    let cs = to_chars(message);
    let mut r = String::new();
    let mut i: usize = 0;
    while i < cs.len()
        invariant
            i <= cs.len(),
            cs@ == message@,
            r@ == html_escaped(cs@.take(i as int)),
        decreases cs.len() - i,
    {
        let c = cs[i];
        proof {
            assert(cs@.take(i + 1).drop_last() =~= cs@.take(i as int));
        }
        if c == '&' {
            push_str(&mut r, "&amp;");
        } else if c == '<' {
            push_str(&mut r, "&lt;");
        } else if c == '>' {
            push_str(&mut r, "&gt;");
        } else if c == '"' {
            push_str(&mut r, "&quot;");
        } else {
            string_push(&mut r, c);
        }
        i = i + 1;
    }
    proof {
        assert(cs@.take(i as int) =~= cs@);
    }
    r
}

/// The album art shown for a song: the artwork embedded in its file when it
/// has some, else its image address.
pub open spec fn album_image(image_id: Option<Seq<char>>, image_url: Option<Seq<char>>) -> Option<Seq<char>> {
    match image_id {
        Some(id) => Some("/artwork/"@ + id),
        None => image_url,
    }
}

/// The address of a song's album art (see `album_image`).
pub fn local_album_image(song: &Song) -> (r: Option<String>)
    ensures
        opt_view(r) == album_image(song@.image_id, song@.image_url),
{
    match &song.image_id {
        Some(id) => {
            let mut r = "/artwork/".to_string();
            push_str(&mut r, id.as_str());
            Some(r)
        },
        None => match &song.image_url {
            Some(u) => Some(u.clone()),
            None => None,
        },
    }
}

/// Escaped text holds no `<`, `>` or `"`, so it cannot open a tag or end an
/// attribute; text without `&`, `<`, `>` and `"` is left as it is.
pub proof fn law_escaped_text_is_inert(s: Seq<char>)
    ensures
        forall|i: int|
            0 <= i < html_escaped(s).len() ==> #[trigger] html_escaped(s)[i] != '<' && html_escaped(s)[i] != '>'
                && html_escaped(s)[i] != '"',
        (forall|i: int| 0 <= i < s.len() ==> #[trigger] s[i] != '&' && s[i] != '<' && s[i] != '>' && s[i] != '"')
            ==> html_escaped(s) == s,
    decreases s.len(),
{
    reveal_strlit("&amp;");
    reveal_strlit("&lt;");
    reveal_strlit("&gt;");
    reveal_strlit("&quot;");
    if s.len() > 0 {
        let d = s.drop_last();
        law_escaped_text_is_inert(d);
        let h = html_escaped(d);
        let c = html_escaped_char(s.last());
        assert(html_escaped(s) == h + c);
        assert forall|i: int| 0 <= i < html_escaped(s).len() implies #[trigger] html_escaped(s)[i] != '<'
            && html_escaped(s)[i] != '>' && html_escaped(s)[i] != '"' by {
            if i < h.len() {
                assert(html_escaped(s)[i] == h[i]);
            } else {
                assert(html_escaped(s)[i] == c[i - h.len()]);
            }
        }
        if forall|i: int| 0 <= i < s.len() ==> #[trigger] s[i] != '&' && s[i] != '<' && s[i] != '>' && s[i] != '"' {
            assert forall|i: int| 0 <= i < d.len() implies #[trigger] d[i] != '&' && d[i] != '<' && d[i] != '>' && d[i]
                != '"' by {
                assert(d[i] == s[i]);
            }
            assert(s[s.len() - 1] == s.last());
            assert(c =~= seq![s.last()]);
            assert(html_escaped(s) =~= s);
        }
    } else {
        assert(html_escaped(s) =~= s);
    }
}

} // verus!
