use vstd::prelude::*;

use crate::text::{parse_u64_chars, parse_unsigned, to_chars};

verus! {

/// One range of output configurations that an audio device supports.
#[derive(Clone, Copy, Debug)]
pub struct SupportedConfig {
    /// The sample format is one of the DSD formats.
    pub is_dsd: bool,
    pub min_rate: u32,
    pub max_rate: u32,
    pub channels: u16,
}

/// How the device must differ from the source: `None` where it plays the
/// source's rate (or channel count) as it is, else the rate (or channel
/// count) to convert to.
pub struct DeviceCapabilities {
    pub rate: Option<u32>,
    pub channels: Option<u16>,
}

/// The sample rates tried, nearest first, when a device refuses a rate.
pub const STANDARD_RATES: [u32; 9] = [192000, 176400, 96000, 88200, 48000, 44100, 32000, 22050, 16000];

pub open spec fn standard_rates() -> Seq<u32> {
    seq![192000u32, 176400u32, 96000u32, 88200u32, 48000u32, 44100u32, 32000u32, 22050u32, 16000u32]
}

pub open spec fn abs_diff(a: int, b: int) -> int {
    if a >= b {
        a - b
    } else {
        b - a
    }
}

/// The configurations that are not DSD, in order.
pub open spec fn pcm_configs(c: Seq<SupportedConfig>) -> Seq<SupportedConfig>
    decreases c.len(),
{
    if c.len() == 0 {
        c
    } else if c.last().is_dsd {
        pcm_configs(c.drop_last())
    } else {
        pcm_configs(c.drop_last()).push(c.last())
    }
}

/// The boundary rates of the PCM configurations: min and max of each, in order.
pub open spec fn boundary_rates(c: Seq<SupportedConfig>) -> Seq<u32>
    decreases c.len(),
{
    if c.len() == 0 {
        Seq::empty()
    } else if c.last().is_dsd {
        boundary_rates(c.drop_last())
    } else {
        boundary_rates(c.drop_last()).push(c.last().min_rate).push(c.last().max_rate)
    }
}

/// Some PCM configuration covers `rate`.
pub open spec fn rate_in_any_range(c: Seq<SupportedConfig>, rate: u32) -> bool {
    exists|i: int| 0 <= i < c.len() && !c[i].is_dsd && c[i].min_rate <= rate <= c[i].max_rate
}

/// `r` is a candidate above `source` that it divides, with a factor below `u32::MAX`.
pub open spec fn is_multiple_above(r: u32, source: u32) -> bool {
    r > source && source > 0 && r % source == 0 && r / source < u32::MAX
}

/// The device plays the source rate as it is when a PCM range covers it. Else the
/// smallest boundary rate that is a multiple above the source is chosen; failing
/// that, the boundary rate nearest to the source (the first of equally near ones,
/// and never one at distance `u32::MAX`).
pub open spec fn device_rate_ok(c: Seq<SupportedConfig>, source: u32, r: Option<u32>) -> bool {
    let b = boundary_rates(c);
    if rate_in_any_range(c, source) {
        r is None
    } else if exists|i: int| 0 <= i < b.len() && is_multiple_above(b[i], source) {
        r matches Some(x) && (exists|i: int| 0 <= i < b.len() && b[i] == x && is_multiple_above(x, source))
            && (forall|i: int| 0 <= i < b.len() && is_multiple_above(b[i], source) ==> x <= b[i])
    } else if exists|i: int| 0 <= i < b.len() && abs_diff(b[i] as int, source as int) < u32::MAX {
        r matches Some(x) && exists|i: int|
            0 <= i < b.len() && b[i] == x && abs_diff(x as int, source as int) < u32::MAX && (forall|j: int|
                0 <= j < b.len() ==> abs_diff(b[j] as int, source as int) >= abs_diff(x as int, source as int))
                && (forall|j: int| 0 <= j < i ==> abs_diff(b[j] as int, source as int) > abs_diff(x as int, source as int))
    } else {
        r is None
    }
}

/// Whether the scan would divide by a zero source rate: it does when the source
/// rate is 0 and the first PCM configuration does not start at 0.
pub open spec fn rate_scan_divides_by_zero(c: Seq<SupportedConfig>, source: u32) -> bool {
    source == 0 && exists|i: int|
        0 <= i < c.len() && !c[i].is_dsd && c[i].min_rate != 0 && forall|j: int| 0 <= j < i ==> c[j].is_dsd
}

/// The state of the rate scan after the candidates `bs`.
pub open spec fn rate_scan_state(
    bs: Seq<u32>,
    source: u32,
    closest: Option<u32>,
    min_distance: u32,
    best_multiple: Option<u32>,
    best_factor: u32,
) -> bool {
    &&& if forall|j: int| 0 <= j < bs.len() ==> abs_diff(bs[j] as int, source as int) >= u32::MAX {
        closest is None && min_distance == u32::MAX
    } else {
        exists|k: int|
            0 <= k < bs.len() && closest == Some(bs[k]) && min_distance == abs_diff(bs[k] as int, source as int)
                && (forall|j: int| 0 <= j < bs.len() ==> abs_diff(bs[j] as int, source as int) >= min_distance)
                && (forall|j: int| 0 <= j < k ==> abs_diff(bs[j] as int, source as int) > min_distance)
    }
    &&& if forall|j: int| 0 <= j < bs.len() ==> !is_multiple_above(bs[j], source) {
        best_multiple is None && best_factor == u32::MAX
    } else {
        best_multiple matches Some(x) && (exists|j: int| 0 <= j < bs.len() && bs[j] == x) && is_multiple_above(x, source)
            && best_factor == x / source && (forall|j: int|
            0 <= j < bs.len() && is_multiple_above(bs[j], source) ==> x <= bs[j])
    }
}

/// Takes one more candidate rate into the scan.
fn consider_rate(
    rate: u32,
    source: u32,
    closest: &mut Option<u32>,
    min_distance: &mut u32,
    best_multiple: &mut Option<u32>,
    best_factor: &mut u32,
    Ghost(bs): Ghost<Seq<u32>>,
)
    requires
        source > 0,
        rate_scan_state(bs, source, *old(closest), *old(min_distance), *old(best_multiple), *old(best_factor)),
    ensures
        rate_scan_state(bs.push(rate), source, *final(closest), *final(min_distance), *final(best_multiple), *final(best_factor)),
{
    let ghost nb = bs.push(rate);
    let distance = if source >= rate { source - rate } else { rate - source };
    if distance < *min_distance {
        *min_distance = distance;
        *closest = Some(rate);
        assert(nb[bs.len() as int] == rate);
    }
    if rate > source && rate % source == 0 {
        let factor = rate / source;
        if factor < *best_factor {
            proof {
                if !(forall|j: int| 0 <= j < bs.len() ==> !is_multiple_above(bs[j], source)) {
                    let x = best_multiple.unwrap();
                    assert(rate < x) by (nonlinear_arith)
                        requires
                            rate % source == 0,
                            x % source == 0,
                            rate / source < x / source,
                            source > 0,
                    {
                        assert(rate == source * (rate / source));
                        assert(x == source * (x / source));
                    }
                }
            }
            *best_factor = factor;
            *best_multiple = Some(rate);
            assert(nb[bs.len() as int] == rate);
        } else {
            proof {
                if !(forall|j: int| 0 <= j < bs.len() ==> !is_multiple_above(bs[j], source)) {
                    let x = best_multiple.unwrap();
                    assert(x <= rate) by (nonlinear_arith)
                        requires
                            rate % source == 0,
                            x % source == 0,
                            rate / source >= x / source,
                            source > 0,
                    {
                        assert(rate == source * (rate / source));
                        assert(x == source * (x / source));
                    }
                }
            }
        }
    }
    assert forall|j: int| 0 <= j < bs.len() implies nb[j] == bs[j] by {}
}

/// The device plays the source's channel count when a PCM configuration has it;
/// else the nearest channel count (the first of equally near ones, never one at
/// distance `u16::MAX`) is chosen.
pub open spec fn device_channels_ok(c: Seq<SupportedConfig>, source: u16, r: Option<u16>) -> bool {
    let p = pcm_configs(c);
    if exists|i: int| 0 <= i < p.len() && p[i].channels == source {
        r is None
    } else if exists|i: int| 0 <= i < p.len() && abs_diff(p[i].channels as int, source as int) < u16::MAX {
        r matches Some(x) && exists|i: int|
            0 <= i < p.len() && p[i].channels == x && abs_diff(x as int, source as int) < u16::MAX && (forall|j: int|
                0 <= j < p.len() ==> abs_diff(p[j].channels as int, source as int) >= abs_diff(x as int, source as int))
                && (forall|j: int| 0 <= j < i ==> abs_diff(p[j].channels as int, source as int) > abs_diff(x as int, source as int))
    } else {
        r is None
    }
}

/// Finds the rate to resample to, or `None` when the device plays `source_rate`.
/// `None` for the configurations means the device could not be asked.
pub fn find_device_rate(configs: &Option<Vec<SupportedConfig>>, source_rate: u32) -> (r: Option<u32>)
    requires
        configs matches Some(c) ==> !rate_scan_divides_by_zero(c@, source_rate),
    ensures
        match configs {
            None => r is None,
            Some(c) => device_rate_ok(c@, source_rate, r),
        },
{
    let Some(cfgs) = configs else {
        return None;
    };
    let ghost c = cfgs@;
    let mut closest: Option<u32> = None;
    let mut min_distance: u32 = u32::MAX;
    let mut best_multiple: Option<u32> = None;
    let mut best_factor: u32 = u32::MAX;
    let mut i: usize = 0;
    assert(c.take(0) =~= Seq::<SupportedConfig>::empty());
    while i < cfgs.len()
        invariant
            c == cfgs@,
            configs matches Some(v) && v@ == c,
            !rate_scan_divides_by_zero(c, source_rate),
            i <= cfgs.len(),
            forall|j: int| 0 <= j < i ==> !(!c[j].is_dsd && c[j].min_rate <= source_rate <= c[j].max_rate),
            source_rate == 0 ==> forall|j: int| 0 <= j < i ==> c[j].is_dsd,
            rate_scan_state(boundary_rates(c.take(i as int)), source_rate, closest, min_distance, best_multiple, best_factor),
        decreases cfgs.len() - i,
    {
        let config = &cfgs[i];
        proof {
            assert(c.take(i + 1) =~= c.take(i as int).push(c[i as int]));
            lemma_pcm_configs_push(c.take(i as int), c[i as int]);
        }
        if !config.is_dsd {
            let min_rate = config.min_rate;
            let max_rate = config.max_rate;
            if min_rate <= source_rate && max_rate >= source_rate {
                proof { lemma_boundary_rates_covering(c, source_rate, i as int); }
                return None;
            }
            consider_rate(min_rate, source_rate, &mut closest, &mut min_distance, &mut best_multiple, &mut best_factor, Ghost(boundary_rates(c.take(i as int))));
            consider_rate(max_rate, source_rate, &mut closest, &mut min_distance, &mut best_multiple, &mut best_factor, Ghost(boundary_rates(c.take(i as int)).push(min_rate)));
        }
        i = i + 1;
    }
    assert(c.take(i as int) =~= c);
    let r = match best_multiple {
        Some(m) => Some(m),
        None => closest,
    };
    proof { lemma_boundary_rates_outcome(c, source_rate, closest, min_distance, best_multiple, best_factor, r); }
    r
}

/// A covering PCM configuration makes the device play the source rate.
proof fn lemma_boundary_rates_covering(c: Seq<SupportedConfig>, source: u32, i: int)
    requires
        0 <= i < c.len(),
        !c[i].is_dsd,
        c[i].min_rate <= source <= c[i].max_rate,
    ensures
        rate_in_any_range(c, source),
{
}

/// After a scan with no covering configuration, the outcome meets `device_rate_ok`.
proof fn lemma_boundary_rates_outcome(
    c: Seq<SupportedConfig>,
    source: u32,
    closest: Option<u32>,
    min_distance: u32,
    best_multiple: Option<u32>,
    best_factor: u32,
    r: Option<u32>,
)
    requires
        forall|j: int| 0 <= j < c.len() ==> !(!c[j].is_dsd && c[j].min_rate <= source <= c[j].max_rate),
        rate_scan_state(boundary_rates(c), source, closest, min_distance, best_multiple, best_factor),
        r == (match best_multiple { Some(m) => Some(m), None => closest }),
    ensures
        device_rate_ok(c, source, r),
{
    let b = boundary_rates(c);
    if exists|i: int| 0 <= i < b.len() && is_multiple_above(b[i], source) {
        let i = choose|i: int| 0 <= i < b.len() && is_multiple_above(b[i], source);
        assert(!(forall|j: int| 0 <= j < b.len() ==> !is_multiple_above(b[j], source)));
    } else if exists|i: int| 0 <= i < b.len() && abs_diff(b[i] as int, source as int) < u32::MAX {
        let i = choose|i: int| 0 <= i < b.len() && abs_diff(b[i] as int, source as int) < u32::MAX;
        assert(!(forall|j: int| 0 <= j < b.len() ==> abs_diff(b[j] as int, source as int) >= u32::MAX));
    }
}

/// The state of the channel scan after the PCM configurations `p`.
pub open spec fn channel_scan_state(p: Seq<SupportedConfig>, source: u16, closest: Option<u16>, min_distance: u16) -> bool {
    if forall|j: int| 0 <= j < p.len() ==> abs_diff(p[j].channels as int, source as int) >= u16::MAX {
        closest is None && min_distance == u16::MAX
    } else {
        exists|k: int|
            0 <= k < p.len() && closest == Some(p[k].channels) && min_distance == abs_diff(p[k].channels as int, source as int)
                && (forall|j: int| 0 <= j < p.len() ==> abs_diff(p[j].channels as int, source as int) >= min_distance)
                && (forall|j: int| 0 <= j < k ==> abs_diff(p[j].channels as int, source as int) > min_distance)
    }
}

/// Finds the channel count to map to, or `None` when the device plays
/// `source_channels`. `None` for the configurations means the device could not
/// be asked.
pub fn find_device_channels(configs: &Option<Vec<SupportedConfig>>, source_channels: u16) -> (r: Option<u16>)
    ensures
        match configs {
            None => r is None,
            Some(c) => device_channels_ok(c@, source_channels, r),
        },
{
    let Some(cfgs) = configs else {
        return None;
    };
    let ghost c = cfgs@;
    let mut supported = false;
    let mut closest: Option<u16> = None;
    let mut min_distance: u16 = u16::MAX;
    let mut i: usize = 0;
    assert(c.take(0) =~= Seq::<SupportedConfig>::empty());
    while i < cfgs.len()
        invariant_except_break
            !supported,
            c == cfgs@,
            i <= cfgs.len(),
            forall|j: int| 0 <= j < pcm_configs(c.take(i as int)).len() ==> pcm_configs(c.take(i as int))[j].channels != source_channels,
            channel_scan_state(pcm_configs(c.take(i as int)), source_channels, closest, min_distance),
        ensures
            c == cfgs@,
            supported ==> exists|j: int| 0 <= j < c.len() && !c[j].is_dsd && c[j].channels == source_channels,
            !supported ==> i == cfgs.len() && (forall|j: int| 0 <= j < pcm_configs(c.take(i as int)).len() ==> pcm_configs(c.take(i as int))[j].channels != source_channels)
                && channel_scan_state(pcm_configs(c.take(i as int)), source_channels, closest, min_distance),
        decreases cfgs.len() - i,
    {
        let config = &cfgs[i];
        let ghost pre = pcm_configs(c.take(i as int));
        proof {
            assert(c.take(i + 1) =~= c.take(i as int).push(c[i as int]));
            lemma_pcm_configs_push(c.take(i as int), c[i as int]);
        }
        if !config.is_dsd {
            let ch = config.channels;
            if ch == source_channels {
                supported = true;
                break ;
            }
            consider_channels(ch, source_channels, &mut closest, &mut min_distance, Ghost(pre), Ghost(c[i as int]));
            proof {
                let post = pcm_configs(c.take(i + 1));
                assert(post == pre.push(c[i as int]));
                assert forall|j: int| 0 <= j < pre.len() implies post[j] == pre[j] by {}
            }
        }
        i = i + 1;
    }
    proof {
        if !supported {
            assert(c.take(i as int) =~= c);
        }
        lemma_pcm_configs_members(c);
    }
    if supported {
        None
    } else {
        closest
    }
}

/// Takes one more PCM configuration into the channel scan.
fn consider_channels(
    ch: u16,
    source: u16,
    closest: &mut Option<u16>,
    min_distance: &mut u16,
    Ghost(p): Ghost<Seq<SupportedConfig>>,
    Ghost(x): Ghost<SupportedConfig>,
)
    requires
        x.channels == ch,
        channel_scan_state(p, source, *old(closest), *old(min_distance)),
    ensures
        channel_scan_state(p.push(x), source, *final(closest), *final(min_distance)),
{
    let ghost np = p.push(x);
    let distance = if source >= ch { source - ch } else { ch - source };
    if distance < *min_distance {
        *min_distance = distance;
        *closest = Some(ch);
        assert(np[p.len() as int] == x);
    }
    assert forall|j: int| 0 <= j < p.len() implies np[j] == p[j] by {}
}

/// `a * f`, or `u32::MAX` when that does not fit.
pub open spec fn saturating_mul_spec(a: u32, f: u32) -> u32 {
    if a * f > u32::MAX {
        u32::MAX
    } else {
        (a * f) as u32
    }
}

fn saturating_mul_u32(a: u32, f: u32) -> (r: u32)
    ensures
        r == saturating_mul_spec(a, f),
{
    if f != 0 && a > u32::MAX / f {
        assert(a * f > u32::MAX) by (nonlinear_arith)
            requires
                f > 0,
                a > u32::MAX / f,
        {}
        u32::MAX
    } else {
        assert(a * f <= u32::MAX) by (nonlinear_arith)
            requires
                f == 0 || a <= u32::MAX / f,
        {}
        a * f
    }
}

/// A rate worth trying instead of `source`: another rate that a PCM range covers.
pub open spec fn worth_trying(c: Seq<SupportedConfig>, source: u32, r: u32) -> bool {
    r != source && rate_in_any_range(c, r)
}

pub open spec fn worth_trying_pred(c: Seq<SupportedConfig>, source: u32) -> spec_fn(u32) -> bool {
    |r: u32| worth_trying(c, source, r)
}

pub open spec fn other_than(source: u32) -> spec_fn(u32) -> bool {
    |r: u32| r != source
}

/// Twice, three and four times the source rate (saturating), where worth trying.
pub open spec fn multiple_candidates(c: Seq<SupportedConfig>, source: u32) -> Seq<u32> {
    seq![saturating_mul_spec(source, 2), saturating_mul_spec(source, 3), saturating_mul_spec(source, 4)].filter(
        worth_trying_pred(c, source),
    )
}

/// `s` with `x` placed after every rate at most as far from `source` (a stable insertion).
pub open spec fn insert_by_distance(s: Seq<u32>, x: u32, source: u32) -> Seq<u32>
    decreases s.len(),
{
    if s.len() == 0 {
        seq![x]
    } else if abs_diff(s.last() as int, source as int) <= abs_diff(x as int, source as int) {
        s.push(x)
    } else {
        insert_by_distance(s.drop_last(), x, source).push(s.last())
    }
}

/// `s` stably sorted by distance from `source`.
pub open spec fn sort_by_distance(s: Seq<u32>, source: u32) -> Seq<u32>
    decreases s.len(),
{
    if s.len() == 0 {
        s
    } else {
        insert_by_distance(sort_by_distance(s.drop_last(), source), s.last(), source)
    }
}

/// `s` with every repeated rate after its first occurrence removed.
pub open spec fn dedup_keep_first(s: Seq<u32>) -> Seq<u32>
    decreases s.len(),
{
    if s.len() == 0 {
        s
    } else {
        let d = dedup_keep_first(s.drop_last());
        if d.contains(s.last()) {
            d
        } else {
            d.push(s.last())
        }
    }
}

/// The rates to try, in order, when the device refuses `source`: the multiples
/// of the source, then the boundary rates of the PCM ranges, then the standard
/// rates that a range covers; the latter two nearest first; each rate once.
pub open spec fn fallback_rates_spec(c: Seq<SupportedConfig>, source: u32) -> Seq<u32> {
    dedup_keep_first(
        multiple_candidates(c, source) + sort_by_distance(boundary_rates(c).filter(other_than(source)), source)
            + sort_by_distance(standard_rates().filter(worth_trying_pred(c, source)), source),
    )
}

proof fn lemma_insert_by_distance_at(s: Seq<u32>, x: u32, source: u32, j: int)
    requires
        0 <= j <= s.len(),
        forall|k: int| j <= k < s.len() ==> abs_diff(s[k] as int, source as int) > abs_diff(x as int, source as int),
        j > 0 ==> abs_diff(s[j - 1] as int, source as int) <= abs_diff(x as int, source as int),
    ensures
        insert_by_distance(s, x, source) == s.insert(j, x),
    decreases s.len(),
{
    if s.len() == 0 {
        assert(seq![x] =~= s.insert(j, x));
    } else if j == s.len() {
        assert(s.push(x) =~= s.insert(j, x));
    } else {
        lemma_insert_by_distance_at(s.drop_last(), x, source, j);
        assert(s.drop_last().insert(j, x).push(s.last()) =~= s.insert(j, x));
    }
}

/// Places `x` by distance from `source` into `v`, as `insert_by_distance` does.
fn insert_rate_by_distance(v: &mut Vec<u32>, x: u32, source: u32)
    ensures
        final(v)@ == insert_by_distance(old(v)@, x, source),
{
    let dx = if x >= source { x - source } else { source - x };
    let mut j: usize = v.len();
    while j > 0
        invariant_except_break
            j <= v.len(),
            v@ == old(v)@,
            forall|k: int| j <= k < v.len() ==> abs_diff(v@[k] as int, source as int) > dx,
        ensures
            j <= v.len(),
            v@ == old(v)@,
            forall|k: int| j <= k < v.len() ==> abs_diff(v@[k] as int, source as int) > dx,
            j > 0 ==> abs_diff(v@[j - 1] as int, source as int) <= dx,
        decreases j,
    {
        let y = v[j - 1];
        let dy = if y >= source { y - source } else { source - y };
        if dy <= dx {
            break ;
        }
        j = j - 1;
    }
    proof { lemma_insert_by_distance_at(old(v)@, x, source, j as int); }
    v.insert(j, x);
}

/// Appends the rates of `s` kept by `keep`, stably sorted by distance from `source`.
fn sorted_by_distance(s: &Vec<u32>, source: u32) -> (r: Vec<u32>)
    ensures
        r@ == sort_by_distance(s@, source),
{
    let mut r: Vec<u32> = Vec::new();
    let mut i: usize = 0;
    assert(s@.take(0) =~= Seq::<u32>::empty());
    while i < s.len()
        invariant
            i <= s.len(),
            r@ == sort_by_distance(s@.take(i as int), source),
        decreases s.len() - i,
    {
        assert(s@.take(i + 1).drop_last() =~= s@.take(i as int));
        insert_rate_by_distance(&mut r, s[i], source);
        i = i + 1;
    }
    assert(s@.take(i as int) =~= s@);
    r
}

/// Whether `v` holds `x`.
fn contains_rate(v: &Vec<u32>, x: u32) -> (r: bool)
    ensures
        r == v@.contains(x),
{
    let mut i: usize = 0;
    while i < v.len()
        invariant
            i <= v.len(),
            forall|k: int| 0 <= k < i ==> v@[k] != x,
        decreases v.len() - i,
    {
        if v[i] == x {
            return true;
        }
        i = i + 1;
    }
    false
}

/// Whether some PCM configuration covers `rate`.
fn in_any_range(configs: &Vec<SupportedConfig>, rate: u32) -> (r: bool)
    ensures
        r == rate_in_any_range(configs@, rate),
{
    let mut i: usize = 0;
    while i < configs.len()
        invariant
            i <= configs.len(),
            forall|k: int| 0 <= k < i ==> !(!configs@[k].is_dsd && configs@[k].min_rate <= rate <= configs@[k].max_rate),
        decreases configs.len() - i,
    {
        if !configs[i].is_dsd && configs[i].min_rate <= rate && rate <= configs[i].max_rate {
            return true;
        }
        i = i + 1;
    }
    false
}

/// The rates to try when the device refuses `source_rate` (see
/// `fallback_rates_spec`). `None` for the configurations means the device
/// could not be asked.
pub fn fallback_rate_candidates(configs: &Option<Vec<SupportedConfig>>, source_rate: u32) -> (r: Vec<u32>)
    ensures
        match configs {
            None => r@.len() == 0,
            Some(c) => r@ == fallback_rates_spec(c@, source_rate),
        },
{
    match configs {
        None => Vec::new(),
        Some(cfgs) => fallback_rates_of(cfgs, source_rate),
    }
}

fn fallback_rates_of(cfgs: &Vec<SupportedConfig>, source_rate: u32) -> (r: Vec<u32>)
    ensures
        r@ == fallback_rates_spec(cfgs@, source_rate),
{
    let ghost c = cfgs@;
    // multiples of the source rate
    let mut candidates: Vec<u32> = Vec::new();
    let mut factor: u32 = 2;
    let ghost ms = seq![saturating_mul_spec(source_rate, 2), saturating_mul_spec(source_rate, 3), saturating_mul_spec(source_rate, 4)];
    assert(ms.take(0).filter(worth_trying_pred(c, source_rate)) =~= Seq::<u32>::empty()) by {
        reveal_with_fuel(Seq::<_>::filter, 1);
    }
    while factor <= 4
        invariant
            2 <= factor <= 5,
            c == cfgs@,
            ms == seq![saturating_mul_spec(source_rate, 2), saturating_mul_spec(source_rate, 3), saturating_mul_spec(source_rate, 4)],
            candidates@ == ms.take(factor - 2).filter(worth_trying_pred(c, source_rate)),
        decreases 5 - factor,
    {
        let rate = saturating_mul_u32(source_rate, factor);
        assert(ms[factor - 2] == rate);
        assert(ms.take(factor - 1).drop_last() =~= ms.take(factor - 2));
        reveal_with_fuel(Seq::<_>::filter, 1);
        if rate != source_rate && in_any_range(cfgs, rate) {
            candidates.push(rate);
        }
        factor = factor + 1;
    }
    assert(ms.take(3) =~= ms);
    // boundaries of the ranges, nearest first
    let mut bounds: Vec<u32> = Vec::new();
    let mut i: usize = 0;
    assert(c.take(0) =~= Seq::<SupportedConfig>::empty());
    assert(boundary_rates(c.take(0)).filter(other_than(source_rate)) =~= Seq::<u32>::empty()) by {
        reveal_with_fuel(Seq::<_>::filter, 1);
    }
    while i < cfgs.len()
        invariant
            i <= cfgs.len(),
            c == cfgs@,
            bounds@ == boundary_rates(c.take(i as int)).filter(other_than(source_rate)),
        decreases cfgs.len() - i,
    {
        proof {
            assert(c.take(i + 1) =~= c.take(i as int).push(c[i as int]));
            lemma_pcm_configs_push(c.take(i as int), c[i as int]);
        }
        if !cfgs[i].is_dsd {
            let lo = cfgs[i].min_rate;
            let hi = cfgs[i].max_rate;
            let ghost b0 = boundary_rates(c.take(i as int));
            proof {
                b0.lemma_filter_push(lo, other_than(source_rate));
                b0.push(lo).lemma_filter_push(hi, other_than(source_rate));
            }
            if lo != source_rate {
                bounds.push(lo);
            }
            if hi != source_rate {
                bounds.push(hi);
            }
        }
        i = i + 1;
    }
    assert(c.take(i as int) =~= c);
    let sorted_bounds = sorted_by_distance(&bounds, source_rate);
    // standard rates the device covers, nearest first
    let mut standard: Vec<u32> = Vec::new();
    let mut k: usize = 0;
    let ghost sr = standard_rates();
    assert(sr.take(0).filter(worth_trying_pred(c, source_rate)) =~= Seq::<u32>::empty()) by {
        reveal_with_fuel(Seq::<_>::filter, 1);
    }
    while k < 9
        invariant
            k <= 9,
            c == cfgs@,
            sr == standard_rates(),
            standard@ == sr.take(k as int).filter(worth_trying_pred(c, source_rate)),
        decreases 9 - k,
    {
        let rate = STANDARD_RATES[k];
        assert(rate == sr[k as int]);
        assert(sr.take(k + 1).drop_last() =~= sr.take(k as int));
        reveal_with_fuel(Seq::<_>::filter, 1);
        if rate != source_rate && in_any_range(cfgs, rate) {
            standard.push(rate);
        }
        k = k + 1;
    }
    assert(sr.take(9) =~= sr);
    let sorted_standard = sorted_by_distance(&standard, source_rate);
    // all of them, each rate once
    assert(candidates@ == multiple_candidates(c, source_rate));
    assert(sorted_bounds@ == sort_by_distance(boundary_rates(c).filter(other_than(source_rate)), source_rate));
    assert(sorted_standard@ == sort_by_distance(standard_rates().filter(worth_trying_pred(c, source_rate)), source_rate));
    let mut joined: Vec<u32> = candidates;
    append_rates(&mut joined, &sorted_bounds);
    append_rates(&mut joined, &sorted_standard);
    dedup_rates(&joined)
}

/// Appends the rates of `s` to `v`.
fn append_rates(v: &mut Vec<u32>, s: &Vec<u32>)
    ensures
        final(v)@ == old(v)@ + s@,
{
    let mut j: usize = 0;
    while j < s.len()
        invariant
            j <= s.len(),
            v@ == old(v)@ + s@.take(j as int),
        decreases s.len() - j,
    {
        v.push(s[j]);
        j = j + 1;
        assert(v@ =~= old(v)@ + s@.take(j as int));
    }
    assert(s@.take(j as int) =~= s@);
}

/// The rates of `s`, each kept at its first occurrence only.
fn dedup_rates(s: &Vec<u32>) -> (r: Vec<u32>)
    ensures
        r@ == dedup_keep_first(s@),
{
    let mut r: Vec<u32> = Vec::new();
    let mut i: usize = 0;
    assert(s@.take(0) =~= Seq::<u32>::empty());
    while i < s.len()
        invariant
            i <= s.len(),
            r@ == dedup_keep_first(s@.take(i as int)),
        decreases s.len() - i,
    {
        assert(s@.take(i + 1).drop_last() =~= s@.take(i as int));
        if !contains_rate(&r, s[i]) {
            r.push(s[i]);
        }
        i = i + 1;
    }
    assert(s@.take(i as int) =~= s@);
    r
}

impl DeviceCapabilities {
    /// What the device needs changed to play a source of the given rate and
    /// channel count.
    pub fn query(configs: &Option<Vec<SupportedConfig>>, source_rate: u32, source_channels: u16) -> (r: Self)
        requires
            configs matches Some(c) ==> !rate_scan_divides_by_zero(c@, source_rate),
        ensures
            match configs {
                None => r.rate is None && r.channels is None,
                Some(c) => device_rate_ok(c@, source_rate, r.rate) && device_channels_ok(
                    c@,
                    source_channels,
                    r.channels,
                ),
            },
    {
        let rate = find_device_rate(configs, source_rate);
        let channels = find_device_channels(configs, source_channels);
        DeviceCapabilities { rate, channels }
    }

    /// The rates to try when the device refuses `source_rate`.
    pub fn fallback_rates(_self: &Self, configs: &Option<Vec<SupportedConfig>>, source_rate: u32) -> (r: Vec<u32>)
        ensures
            match configs {
                None => r@.len() == 0,
                Some(c) => r@ == fallback_rates_spec(c@, source_rate),
            },
    {
        fallback_rate_candidates(configs, source_rate)
    }
}

/// How a track is played on the device.
pub struct OutputPlan {
    /// The rate to resample to, when the device needs one.
    pub device_rate: Option<u32>,
    /// The channel count to map to, when the device needs one.
    pub device_channels: Option<u16>,
    /// The rate the device is driven at.
    pub output_rate: u32,
    /// The channel count the device is driven at.
    pub output_channels: u16,
    /// Whether the equalizer and the level meter run (they never do for DSD).
    pub process_pcm: bool,
}

/// The text of an optional string.
pub open spec fn opt_text(o: Option<&str>) -> Option<Seq<char>> {
    match o {
        Some(t) => Some(t@),
        None => None,
    }
}

/// The rate that a resampling override forces: the `u32` its text holds, when
/// that differs from the source rate.
pub open spec fn forced_rate(resample_to: Option<Seq<char>>, source: u32) -> Option<u32> {
    match resample_to {
        Some(t) => match parse_unsigned(t, u32::MAX as int) {
            Some(v) => if v != source {
                Some(v as u32)
            } else {
                None
            },
            None => None,
        },
        None => None,
    }
}

/// The rate to resample to, given the resampling override (the text of
/// `RSPLAYER_RESAMPLE_TO`, if set): a rate it forces wins, otherwise the
/// device decides as `find_device_rate` does.
pub open spec fn device_rate_with_override_ok(
    resample_to: Option<Seq<char>>,
    c: Option<Seq<SupportedConfig>>,
    source: u32,
    r: Option<u32>,
) -> bool {
    match forced_rate(resample_to, source) {
        Some(f) => r == Some(f),
        None => match c {
            None => r is None,
            Some(c) => device_rate_ok(c, source, r),
        },
    }
}

/// The rate the override text forces, if any (see `forced_rate`).
pub fn forced_rate_of(resample_to: Option<&str>, source_rate: u32) -> (r: Option<u32>)
    ensures
        r == forced_rate(opt_text(resample_to), source_rate),
{
    match resample_to {
        None => None,
        Some(t) => match parse_u64_chars(&to_chars(t)) {
            Some(v) => if v <= 0xffff_ffff && v as u32 != source_rate {
                Some(v as u32)
            } else {
                None
            },
            None => None,
        },
    }
}

/// Finds the rate to resample to, honouring a resampling override (see
/// `device_rate_with_override_ok`).
pub fn find_device_rate_with_override(
    resample_to: Option<&str>,
    configs: &Option<Vec<SupportedConfig>>,
    source_rate: u32,
) -> (r: Option<u32>)
    requires
        forced_rate(opt_text(resample_to), source_rate) is None ==> (configs matches Some(c)
            ==> !rate_scan_divides_by_zero(c@, source_rate)),
    ensures
        device_rate_with_override_ok(
            opt_text(resample_to),
            match configs {
                Some(c) => Some(c@),
                None => None,
            },
            source_rate,
            r,
        ),
{
    match forced_rate_of(resample_to, source_rate) {
        Some(f) => Some(f),
        None => find_device_rate(configs, source_rate),
    }
}

/// The plan for a source of the given rate and channel count: DSD is sent as
/// it is; PCM is converted to what the device needs, a forced resampling rate
/// included.
pub open spec fn output_plan_ok(
    c: Option<Seq<SupportedConfig>>,
    resample_to: Option<Seq<char>>,
    is_dsd: bool,
    source_rate: u32,
    source_channels: u16,
    p: OutputPlan,
) -> bool {
    &&& if is_dsd {
        p.device_rate is None && p.device_channels is None
    } else {
        &&& device_rate_with_override_ok(resample_to, c, source_rate, p.device_rate)
        &&& match c {
            None => p.device_channels is None,
            Some(c) => device_channels_ok(c, source_channels, p.device_channels),
        }
    }
    &&& p.output_rate == match p.device_rate {
        Some(r) => r,
        None => source_rate,
    }
    &&& p.output_channels == match p.device_channels {
        Some(ch) => ch,
        None => source_channels,
    }
    &&& p.process_pcm == !is_dsd
}

/// Plans how to play a source of the given rate and channel count.
pub fn output_plan(
    configs: &Option<Vec<SupportedConfig>>,
    resample_to: Option<&str>,
    is_dsd: bool,
    source_rate: u32,
    source_channels: u16,
) -> (r: OutputPlan)
    requires
        !is_dsd && forced_rate(opt_text(resample_to), source_rate) is None ==> (configs matches Some(c)
            ==> !rate_scan_divides_by_zero(c@, source_rate)),
    ensures
        output_plan_ok(
            match configs {
                Some(c) => Some(c@),
                None => None,
            },
            opt_text(resample_to),
            is_dsd,
            source_rate,
            source_channels,
            r,
        ),
{
    let (device_rate, device_channels) = if is_dsd {
        (None, None)
    } else {
        (
            find_device_rate_with_override(resample_to, configs, source_rate),
            find_device_channels(configs, source_channels),
        )
    };
    let output_rate = match device_rate {
        Some(r) => r,
        None => source_rate,
    };
    let output_channels = match device_channels {
        Some(ch) => ch,
        None => source_channels,
    };
    OutputPlan { device_rate, device_channels, output_rate, output_channels, process_pcm: !is_dsd }
}

/// Index of the first DSD configuration that covers `rate`, if any.
pub fn find_dsd_config(configs: &Vec<SupportedConfig>, rate: u32) -> (r: Option<usize>)
    ensures
        match r {
            Some(i) => i < configs@.len() && configs@[i as int].is_dsd && configs@[i as int].min_rate <= rate
                <= configs@[i as int].max_rate && forall|j: int|
                0 <= j < i ==> !(configs@[j].is_dsd && configs@[j].min_rate <= rate <= configs@[j].max_rate),
            None => forall|j: int|
                0 <= j < configs@.len() ==> !(configs@[j].is_dsd && configs@[j].min_rate <= rate
                    <= configs@[j].max_rate),
        },
{
    let mut i: usize = 0;
    while i < configs.len()
        invariant
            i <= configs.len(),
            forall|j: int|
                0 <= j < i ==> !(configs@[j].is_dsd && configs@[j].min_rate <= rate <= configs@[j].max_rate),
        decreases configs.len() - i,
    {
        if configs[i].is_dsd && configs[i].min_rate <= rate && rate <= configs[i].max_rate {
            return Some(i);
        }
        i = i + 1;
    }
    None
}

// ------------------------------------------------------------------------
// Lemmas on the configuration lists
// ------------------------------------------------------------------------

proof fn lemma_pcm_configs_push(c: Seq<SupportedConfig>, x: SupportedConfig)
    ensures
        pcm_configs(c.push(x)) == if x.is_dsd { pcm_configs(c) } else { pcm_configs(c).push(x) },
        boundary_rates(c.push(x)) == if x.is_dsd {
            boundary_rates(c)
        } else {
            boundary_rates(c).push(x.min_rate).push(x.max_rate)
        },
{
    assert(c.push(x).drop_last() =~= c);
}

proof fn lemma_pcm_configs_members(c: Seq<SupportedConfig>)
    ensures
        forall|i: int| 0 <= i < pcm_configs(c).len() ==> !(#[trigger] pcm_configs(c)[i]).is_dsd,
        forall|i: int| 0 <= i < c.len() && !c[i].is_dsd ==> exists|j: int|
            0 <= j < pcm_configs(c).len() && #[trigger] pcm_configs(c)[j] == c[i],
    decreases c.len(),
{
    if c.len() > 0 {
        lemma_pcm_configs_members(c.drop_last());
        let d = pcm_configs(c.drop_last());
        assert forall|i: int| 0 <= i < pcm_configs(c).len() implies !(#[trigger] pcm_configs(c)[i]).is_dsd by {
            if i < d.len() {
                assert(pcm_configs(c)[i] == d[i]);
            }
        }
        assert forall|i: int| 0 <= i < c.len() && !c[i].is_dsd implies exists|j: int|
            0 <= j < pcm_configs(c).len() && #[trigger] pcm_configs(c)[j] == c[i] by {
            if i < c.len() - 1 {
                assert(c.drop_last()[i] == c[i]);
                let j = choose|j: int|
                    0 <= j < pcm_configs(c.drop_last()).len() && #[trigger] pcm_configs(c.drop_last())[j]
                        == c.drop_last()[i];
                assert(pcm_configs(c)[j] == c[i]);
            } else {
                assert(pcm_configs(c)[pcm_configs(c).len() - 1] == c[i]);
            }
        }
    }
}

// ------------------------------------------------------------------------
// Laws
// ------------------------------------------------------------------------

/// Removing repeats keeps each rate once and keeps every rate.
proof fn lemma_dedup_keep_first(s: Seq<u32>)
    ensures
        dedup_keep_first(s).no_duplicates(),
        forall|x: u32| dedup_keep_first(s).contains(x) <==> s.contains(x),
    decreases s.len(),
{
    if s.len() > 0 {
        let d = dedup_keep_first(s.drop_last());
        lemma_dedup_keep_first(s.drop_last());
        assert forall|x: u32| dedup_keep_first(s).contains(x) <==> s.contains(x) by {
            if s.contains(x) {
                let i = choose|i: int| 0 <= i < s.len() && s[i] == x;
                if i < s.len() - 1 {
                    assert(s.drop_last()[i] == x);
                }
            }
            if s.drop_last().contains(x) {
                let i = choose|i: int| 0 <= i < s.len() - 1 && s.drop_last()[i] == x;
                assert(s[i] == x);
            }
            if !d.contains(s.last()) && d.push(s.last()).contains(x) {
                let i = choose|i: int| 0 <= i < d.len() + 1 && d.push(s.last())[i] == x;
                if i < d.len() {
                    assert(d[i] == x);
                }
            }
            if !d.contains(s.last()) && d.contains(x) {
                let i = choose|i: int| 0 <= i < d.len() && d[i] == x;
                assert(d.push(s.last())[i] == x);
            }
            if !d.contains(s.last()) && x == s.last() {
                assert(d.push(s.last())[d.len() as int] == x);
            }
        }
    }
}

/// A stable insertion by distance adds just the inserted rate.
proof fn lemma_insert_by_distance_contains(s: Seq<u32>, x: u32, source: u32, y: u32)
    ensures
        insert_by_distance(s, x, source).contains(y) ==> s.contains(y) || y == x,
    decreases s.len(),
{
    if s.len() > 0 {
        let t = insert_by_distance(s, x, source);
        if t.contains(y) {
            let i = choose|i: int| 0 <= i < t.len() && t[i] == y;
            if abs_diff(s.last() as int, source as int) <= abs_diff(x as int, source as int) {
                if i < s.len() {
                    assert(s[i] == y);
                }
            } else {
                let u = insert_by_distance(s.drop_last(), x, source);
                lemma_insert_by_distance_contains(s.drop_last(), x, source, y);
                if i < u.len() {
                    assert(u[i] == y);
                    if s.drop_last().contains(y) {
                        let j = choose|j: int| 0 <= j < s.len() - 1 && s.drop_last()[j] == y;
                        assert(s[j] == y);
                    }
                } else {
                    assert(s[s.len() - 1] == y);
                }
            }
        }
    } else {
        if insert_by_distance(s, x, source).contains(y) {
            assert(seq![x][0] == x);
        }
    }
}

/// Sorting by distance adds no rate.
proof fn lemma_sort_by_distance_contains(s: Seq<u32>, source: u32, y: u32)
    ensures
        sort_by_distance(s, source).contains(y) ==> s.contains(y),
    decreases s.len(),
{
    if s.len() > 0 {
        let d = s.drop_last();
        lemma_sort_by_distance_contains(d, source, y);
        lemma_insert_by_distance_contains(sort_by_distance(d, source), s.last(), source, y);
        if sort_by_distance(s, source).contains(y) {
            if d.contains(y) {
                let j = choose|j: int| 0 <= j < d.len() && d[j] == y;
                assert(s[j] == y);
            } else {
                assert(s[s.len() - 1] == y);
            }
        }
    }
}

/// The rates to try hold each rate once and never the source rate.
pub proof fn law_fallback_rates_distinct(c: Seq<SupportedConfig>, source: u32)
    ensures
        fallback_rates_spec(c, source).no_duplicates(),
        !fallback_rates_spec(c, source).contains(source),
{
    let m = multiple_candidates(c, source);
    let b = boundary_rates(c).filter(other_than(source));
    let st = standard_rates().filter(worth_trying_pred(c, source));
    let all = m + sort_by_distance(b, source) + sort_by_distance(st, source);
    lemma_dedup_keep_first(all);
    if all.contains(source) {
        let i = choose|i: int| 0 <= i < all.len() && all[i] == source;
        let m3 = seq![saturating_mul_spec(source, 2), saturating_mul_spec(source, 3), saturating_mul_spec(source, 4)];
        if i < m.len() {
            m3.lemma_filter_pred(worth_trying_pred(c, source), i);
        } else if i < m.len() + sort_by_distance(b, source).len() {
            let sb = sort_by_distance(b, source);
            assert(sb[i - m.len()] == source);
            lemma_sort_by_distance_contains(b, source, source);
            let j = choose|j: int| 0 <= j < b.len() && b[j] == source;
            boundary_rates(c).lemma_filter_pred(other_than(source), j);
        } else {
            let ss = sort_by_distance(st, source);
            assert(ss[i - m.len() - sort_by_distance(b, source).len()] == source);
            lemma_sort_by_distance_contains(st, source, source);
            let j = choose|j: int| 0 <= j < st.len() && st[j] == source;
            standard_rates().lemma_filter_pred(worth_trying_pred(c, source), j);
        }
    }
}

proof fn lemma_pcm_configs_has(c: Seq<SupportedConfig>, i: int)
    requires
        0 <= i < c.len(),
        !c[i].is_dsd,
    ensures
        exists|j: int| 0 <= j < pcm_configs(c).len() && pcm_configs(c)[j] == c[i],
    decreases c.len(),
{
    let d = c.drop_last();
    if i == c.len() - 1 {
        assert(pcm_configs(c) == pcm_configs(d).push(c.last()));
        let k = pcm_configs(d).len() as int;
        assert(pcm_configs(c)[k] == c[i]);
    } else {
        assert(d[i] == c[i]);
        lemma_pcm_configs_has(d, i);
        let j = choose|j: int| 0 <= j < pcm_configs(d).len() && pcm_configs(d)[j] == d[i];
        if !c.last().is_dsd {
            assert(pcm_configs(c) == pcm_configs(d).push(c.last()));
            assert(pcm_configs(c)[j] == pcm_configs(d)[j]);
        } else {
            assert(pcm_configs(c) == pcm_configs(d));
        }
        assert(pcm_configs(c)[j] == c[i]);
    }
}

/// The device's needs are decided by its configurations alone: there is one
/// rate answer and one channel answer for each source, so `query` gives what
/// `find_device_rate` and `find_device_channels` give.
pub proof fn law_device_choice_is_unique(
    c: Seq<SupportedConfig>,
    source_rate: u32,
    source_channels: u16,
    r1: Option<u32>,
    r2: Option<u32>,
    n1: Option<u16>,
    n2: Option<u16>,
)
    requires
        device_rate_ok(c, source_rate, r1),
        device_rate_ok(c, source_rate, r2),
        device_channels_ok(c, source_channels, n1),
        device_channels_ok(c, source_channels, n2),
    ensures
        r1 == r2,
        n1 == n2,
{
    let b = boundary_rates(c);
    if !rate_in_any_range(c, source_rate) && !(exists|i: int| 0 <= i < b.len() && is_multiple_above(b[i], source_rate))
        && (exists|i: int| 0 <= i < b.len() && abs_diff(b[i] as int, source_rate as int) < u32::MAX) {
        let i1 = choose|i: int|
            0 <= i < b.len() && b[i] == r1->0 && abs_diff(r1->0 as int, source_rate as int) < u32::MAX && (forall|j: int|
                0 <= j < b.len() ==> abs_diff(b[j] as int, source_rate as int) >= abs_diff(r1->0 as int, source_rate as int))
                && (forall|j: int| 0 <= j < i ==> abs_diff(b[j] as int, source_rate as int) > abs_diff(r1->0 as int, source_rate as int));
        let i2 = choose|i: int|
            0 <= i < b.len() && b[i] == r2->0 && abs_diff(r2->0 as int, source_rate as int) < u32::MAX && (forall|j: int|
                0 <= j < b.len() ==> abs_diff(b[j] as int, source_rate as int) >= abs_diff(r2->0 as int, source_rate as int))
                && (forall|j: int| 0 <= j < i ==> abs_diff(b[j] as int, source_rate as int) > abs_diff(r2->0 as int, source_rate as int));
        if i1 < i2 {
            assert(abs_diff(b[i1] as int, source_rate as int) > abs_diff(r2->0 as int, source_rate as int));
        } else if i2 < i1 {
            assert(abs_diff(b[i2] as int, source_rate as int) > abs_diff(r1->0 as int, source_rate as int));
        }
    }
    let p = pcm_configs(c);
    if !(exists|i: int| 0 <= i < p.len() && p[i].channels == source_channels)
        && (exists|i: int| 0 <= i < p.len() && abs_diff(p[i].channels as int, source_channels as int) < u16::MAX) {
        let i1 = choose|i: int|
            0 <= i < p.len() && p[i].channels == n1->0 && abs_diff(n1->0 as int, source_channels as int) < u16::MAX
                && (forall|j: int|
                0 <= j < p.len() ==> abs_diff(p[j].channels as int, source_channels as int) >= abs_diff(
                    n1->0 as int,
                    source_channels as int,
                )) && (forall|j: int|
                0 <= j < i ==> abs_diff(p[j].channels as int, source_channels as int) > abs_diff(
                    n1->0 as int,
                    source_channels as int,
                ));
        let i2 = choose|i: int|
            0 <= i < p.len() && p[i].channels == n2->0 && abs_diff(n2->0 as int, source_channels as int) < u16::MAX
                && (forall|j: int|
                0 <= j < p.len() ==> abs_diff(p[j].channels as int, source_channels as int) >= abs_diff(
                    n2->0 as int,
                    source_channels as int,
                )) && (forall|j: int|
                0 <= j < i ==> abs_diff(p[j].channels as int, source_channels as int) > abs_diff(
                    n2->0 as int,
                    source_channels as int,
                ));
        if i1 < i2 {
            assert(abs_diff(p[i1].channels as int, source_channels as int) > abs_diff(n2->0 as int, source_channels as int));
        } else if i2 < i1 {
            assert(abs_diff(p[i2].channels as int, source_channels as int) > abs_diff(n1->0 as int, source_channels as int));
        }
    }
}

/// A device with a PCM configuration whose rate range holds the source rate,
/// and one with the source's channel count, plays the source as it is:
/// neither the rate nor the channel count is changed.
pub proof fn law_device_plays_matching_source(
    c: Seq<SupportedConfig>,
    source_rate: u32,
    source_channels: u16,
    rate: Option<u32>,
    channels: Option<u16>,
    i: int,
    j: int,
)
    requires
        device_rate_ok(c, source_rate, rate),
        device_channels_ok(c, source_channels, channels),
        0 <= i < c.len(),
        !c[i].is_dsd,
        c[i].min_rate <= source_rate <= c[i].max_rate,
        0 <= j < c.len(),
        !c[j].is_dsd,
        c[j].channels == source_channels,
    ensures
        rate is None,
        channels is None,
{
    assert(rate_in_any_range(c, source_rate));
    lemma_pcm_configs_has(c, j);
}

} // verus!
