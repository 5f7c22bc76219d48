use vstd::prelude::*;

use crate::text::{decimal, format_decimal, lemma_parse_decimal, parse_u64_chars, parse_unsigned, push_str, to_chars};

verus! {

/// How playing a song or a queue ended.
#[derive(Debug, Clone, Copy, PartialEq, Eq, Structural)]
pub enum PlaybackResult {
    QueueFinished,
    SongFinished,
    PlaybackStopped,
    PlaybackFailed,
}

/// How many times a song that fails to play is tried again.
pub const MAX_RETRIES: u32 = 5;

/// What playing one song came to.
#[derive(Debug, Clone, Copy, PartialEq, Eq, Structural)]
pub enum SongOutcome {
    /// It ended with this result.
    Ended(PlaybackResult),
    /// It failed with an error.
    Failed,
}

/// What the playback loop does next.
#[derive(Debug, Clone, Copy, PartialEq, Eq, Structural)]
pub enum PlaybackStep {
    /// Report the player stopped and end with `PlaybackStopped`.
    Stop,
    /// Report the retry (its number given) and play the same song again.
    Retry(u32),
    /// Report the error and end with `PlaybackFailed`.
    Fail,
    /// Forget the retries and go on to the next song of the queue.
    Next,
}

/// After a song: a stop ends playback; an error is retried up to `MAX_RETRIES`
/// times unless a stop was asked for, and then ends playback; any other end
/// moves to the next song.
pub open spec fn next_step(outcome: SongOutcome, retry_count: u32, stop_requested: bool) -> PlaybackStep {
    match outcome {
        SongOutcome::Ended(PlaybackResult::PlaybackStopped) => PlaybackStep::Stop,
        SongOutcome::Failed => if retry_count < MAX_RETRIES && !stop_requested {
            PlaybackStep::Retry((retry_count + 1) as u32)
        } else {
            PlaybackStep::Fail
        },
        _ => PlaybackStep::Next,
    }
}

/// Decides what the playback loop does after a song (see `next_step`).
pub fn decide_after_song(outcome: SongOutcome, retry_count: u32, stop_requested: bool) -> (r: PlaybackStep)
    ensures
        r == next_step(outcome, retry_count, stop_requested),
{
    match outcome {
        SongOutcome::Ended(PlaybackResult::PlaybackStopped) => PlaybackStep::Stop,
        SongOutcome::Failed => {
            if retry_count < MAX_RETRIES && !stop_requested {
                PlaybackStep::Retry(retry_count + 1)
            } else {
                PlaybackStep::Fail
            }
        },
        _ => PlaybackStep::Next,
    }
}

/// Where the queue's playback loop stands: how many times the current song
/// has been retried.
#[derive(Debug, Clone, Copy, PartialEq, Eq, Structural)]
pub struct QueueLoopState {
    pub retry_count: u32,
}

/// What happens in the queue's playback loop.
#[derive(Debug, Clone, Copy, PartialEq, Eq, Structural)]
pub enum QueueEvent {
    /// The queue was asked for its current song: whether it has one.
    CurrentSong { present: bool },
    /// The song ended so; whether a stop was asked for.
    SongEnded { outcome: SongOutcome, stop_requested: bool },
    /// The wait before a retry is over; whether a stop was asked for meanwhile.
    RetryWaitOver { stop_requested: bool },
    /// Moving to the next song of the queue succeeded or not.
    Moved { moved: bool },
}

/// What the player is told when the loop ends.
#[derive(Debug, Clone, Copy, PartialEq, Eq, Structural)]
pub enum EndReport {
    /// The player stopped.
    Stopped,
    /// The song failed.
    Failed,
    /// Nothing.
    Silent,
}

/// What the queue's playback loop does next.
#[derive(Debug, Clone, Copy, PartialEq, Eq, Structural)]
pub enum QueueAction {
    /// Ask the queue for its current song.
    LookForSong,
    /// Report the song and that the player plays, then play it.
    PlaySong,
    /// Report retry number `n`, then wait before playing the song again.
    WaitToRetry(u32),
    /// Move to the next song of the queue.
    MoveToNext,
    /// Tell the player so, and end with this result.
    End { result: PlaybackResult, report: EndReport },
}

/// The queue loop's next state and action: with no current song the queue is
/// finished and the player stopped; a song that ends stopped stops the loop;
/// a failure is retried (see `next_step`) after a wait, unless a stop comes
/// during the wait, and fails the loop when it may not be retried; any other
/// end moves to the next song, and the queue is finished when there is none.
pub open spec fn queue_loop_next(s: QueueLoopState, e: QueueEvent) -> (QueueLoopState, QueueAction) {
    match e {
        QueueEvent::CurrentSong { present } => if present {
            (s, QueueAction::PlaySong)
        } else {
            (s, QueueAction::End { result: PlaybackResult::QueueFinished, report: EndReport::Stopped })
        },
        QueueEvent::SongEnded { outcome, stop_requested } => match next_step(outcome, s.retry_count, stop_requested) {
            PlaybackStep::Stop => (s, QueueAction::End { result: PlaybackResult::PlaybackStopped, report: EndReport::Stopped }),
            PlaybackStep::Retry(n) => (QueueLoopState { retry_count: n }, QueueAction::WaitToRetry(n)),
            PlaybackStep::Fail => (s, QueueAction::End { result: PlaybackResult::PlaybackFailed, report: EndReport::Failed }),
            PlaybackStep::Next => (QueueLoopState { retry_count: 0 }, QueueAction::MoveToNext),
        },
        QueueEvent::RetryWaitOver { stop_requested } => if stop_requested {
            (s, QueueAction::End { result: PlaybackResult::PlaybackStopped, report: EndReport::Stopped })
        } else {
            (s, QueueAction::LookForSong)
        },
        QueueEvent::Moved { moved } => if moved {
            (s, QueueAction::LookForSong)
        } else {
            (s, QueueAction::End { result: PlaybackResult::QueueFinished, report: EndReport::Silent })
        },
    }
}

/// The queue loop's state before it starts, and its first action.
pub fn queue_loop_start() -> (r: (QueueLoopState, QueueAction))
    ensures
        r == (QueueLoopState { retry_count: 0 }, QueueAction::LookForSong),
{
    (QueueLoopState { retry_count: 0 }, QueueAction::LookForSong)
}

/// The queue loop's next state and action (see `queue_loop_next`).
pub fn queue_loop_step(state: QueueLoopState, event: QueueEvent) -> (r: (QueueLoopState, QueueAction))
    ensures
        r == queue_loop_next(state, event),
{
    let s = state;
    match event {
        QueueEvent::CurrentSong { present } => if present {
            (s, QueueAction::PlaySong)
        } else {
            (s, QueueAction::End { result: PlaybackResult::QueueFinished, report: EndReport::Stopped })
        },
        QueueEvent::SongEnded { outcome, stop_requested } => match decide_after_song(outcome, s.retry_count, stop_requested) {
            PlaybackStep::Stop => (s, QueueAction::End { result: PlaybackResult::PlaybackStopped, report: EndReport::Stopped }),
            PlaybackStep::Retry(n) => (QueueLoopState { retry_count: n }, QueueAction::WaitToRetry(n)),
            PlaybackStep::Fail => (s, QueueAction::End { result: PlaybackResult::PlaybackFailed, report: EndReport::Failed }),
            PlaybackStep::Next => (QueueLoopState { retry_count: 0 }, QueueAction::MoveToNext),
        },
        QueueEvent::RetryWaitOver { stop_requested } => if stop_requested {
            (s, QueueAction::End { result: PlaybackResult::PlaybackStopped, report: EndReport::Stopped })
        } else {
            (s, QueueAction::LookForSong)
        },
        QueueEvent::Moved { moved } => if moved {
            (s, QueueAction::LookForSong)
        } else {
            (s, QueueAction::End { result: PlaybackResult::QueueFinished, report: EndReport::Silent })
        },
    }
}

/// A stop that comes while waiting to retry ends the loop with
/// `PlaybackStopped`; when the queue has no next song the loop ends with
/// `QueueFinished`; a song that finished resets the retries and moves on.
pub proof fn law_queue_loop_ends(s: QueueLoopState, result: PlaybackResult, stop_requested: bool)
    requires
        result != PlaybackResult::PlaybackStopped,
    ensures
        queue_loop_next(s, QueueEvent::RetryWaitOver { stop_requested: true }).1 == (QueueAction::End {
            result: PlaybackResult::PlaybackStopped,
            report: EndReport::Stopped,
        }),
        queue_loop_next(s, QueueEvent::Moved { moved: false }).1 == (QueueAction::End {
            result: PlaybackResult::QueueFinished,
            report: EndReport::Silent,
        }),
        queue_loop_next(s, QueueEvent::SongEnded { outcome: SongOutcome::Ended(result), stop_requested }) == (
            QueueLoopState { retry_count: 0 },
            QueueAction::MoveToNext,
        ),
{
}

/// The notice shown before retry number `n`.
pub fn retry_message(n: u32) -> (r: String)
    ensures
        r@ == "Retrying ("@ + decimal(n as nat) + "/"@ + decimal(MAX_RETRIES as nat) + ")..."@,
{
    let mut r = "Retrying (".to_owned();
    push_str(&mut r, format_decimal(n as u64).as_str());
    push_str(&mut r, "/");
    push_str(&mut r, format_decimal(MAX_RETRIES as u64).as_str());
    push_str(&mut r, ")...");
    r
}

/// Whether the queue is given up after `num_failed` songs in a row failed to
/// play: at 10 failures, or once every song of the queue failed.
pub fn too_many_failures(num_failed: usize, queue_size: usize) -> (r: bool)
    ensures
        r == (num_failed == 10 || num_failed >= queue_size),
{
    num_failed == 10 || num_failed >= queue_size
}

/// The position to seek to, `offset_seconds` away from the last known time:
/// never before the start, and kept to 16 bits as a `u16` keeps it.
pub open spec fn seek_target_spec(last_known_time: u32, offset_seconds: i32) -> u16 {
    let current = if last_known_time <= i32::MAX { last_known_time as int } else { last_known_time - 0x1_0000_0000 };
    let t = current + offset_seconds;
    let clamped = if t < 0 { 0 } else { t };
    (clamped % 0x1_0000) as u16
}

/// The last known time as the signed number it is read as.
pub open spec fn signed_time(last_known_time: u32) -> int {
    if last_known_time <= i32::MAX { last_known_time as int } else { last_known_time - 0x1_0000_0000 }
}

/// Computes the seek position for a relative seek (see `seek_target_spec`).
pub fn seek_target(last_known_time: u32, offset_seconds: i32) -> (r: u16)
    requires
        i32::MIN <= signed_time(last_known_time) + offset_seconds <= i32::MAX,
    ensures
        r == seek_target_spec(last_known_time, offset_seconds),
{
    let current = last_known_time as i32;
    assert(current == signed_time(last_known_time)) by (bit_vector)
        requires
            current == last_known_time as i32,
    ;
    let t = current + offset_seconds;
    let clamped = if t < 0 { 0 } else { t };
    let r = clamped as u16;
    assert(r == clamped % 0x1_0000) by (bit_vector)
        requires
            r == clamped as u16,
            clamped >= 0,
    ;
    r
}

/// A stored play position read back: the number that the text denotes when
/// it is at most `max`, else 0.
pub open spec fn read_time(text: Seq<char>, max: int) -> int {
    match parse_unsigned(text, max) {
        Some(v) => v,
        None => 0,
    }
}

/// A play position saved as its decimal text reads back as the same number of
/// seconds when it fits the type it is read as, and as 0 otherwise (at
/// start-up it is read as a `u32`, when resuming as a `u16`).
pub proof fn law_saved_time_reads_back(t: u64)
    ensures
        read_time(decimal(t as nat), u32::MAX as int) == (if t <= u32::MAX { t as int } else { 0 }),
        read_time(decimal(t as nat), u16::MAX as int) == (if t <= u16::MAX { t as int } else { 0 }),
{
    lemma_parse_decimal(t as nat, u32::MAX as int);
    lemma_parse_decimal(t as nat, u16::MAX as int);
}

/// The stored play position: the stored text as a `u16` number of seconds,
/// or 0 when it is not one.
pub fn parse_last_played_time(text: &str) -> (r: u16)
    ensures
        r == read_time(text@, u16::MAX as int),
{
    match parse_u64_chars(&to_chars(text)) {
        Some(v) => if v <= 0xffff {
            v as u16
        } else {
            0
        },
        None => 0,
    }
}

/// The stored play position read at start-up: the stored text as a `u32`
/// number of seconds, or 0 when it is not one.
pub fn parse_initial_time(text: &str) -> (r: u32)
    ensures
        r == read_time(text@, u32::MAX as int),
{
    match parse_u64_chars(&to_chars(text)) {
        Some(v) => if v <= 0xffff_ffff {
            v as u32
        } else {
            0
        },
        None => 0,
    }
}

/// What a track of a media file carries.
pub struct TrackSummary {
    /// The track has audio codec parameters.
    pub is_audio: bool,
    /// Its codec is the null audio codec.
    pub is_null_codec: bool,
}

/// A track that can be played: audio with a real codec.
pub open spec fn playable(t: TrackSummary) -> bool {
    t.is_audio && !t.is_null_codec
}

/// The index of the first playable track, if any.
pub fn first_supported_track(tracks: &[TrackSummary]) -> (r: Option<usize>)
    ensures
        match r {
            Some(i) => i < tracks@.len() && playable(tracks@[i as int]) && forall|j: int|
                0 <= j < i ==> !playable(#[trigger] tracks@[j]),
            None => forall|j: int| 0 <= j < tracks@.len() ==> !playable(#[trigger] tracks@[j]),
        },
{
    let mut i: usize = 0;
    while i < tracks.len()
        invariant
            i <= tracks.len(),
            forall|j: int| 0 <= j < i ==> !playable(#[trigger] tracks@[j]),
        decreases tracks.len() - i,
    {
        if tracks[i].is_audio && !tracks[i].is_null_codec {
            return Some(i);
        }
        i = i + 1;
    }
    None
}

/// The number of samples the output ring buffer holds: `ring_buffer_ms`
/// milliseconds at `rate`, for every channel.
pub fn ring_buffer_len(ring_buffer_ms: usize, rate: u32, channels: usize) -> (r: usize)
    requires
        ring_buffer_ms * rate <= usize::MAX,
        (ring_buffer_ms * rate) / 1000 * channels <= usize::MAX,
    ensures
        r == (ring_buffer_ms * rate) / 1000 * channels,
{
    let per_channel = (ring_buffer_ms * rate as usize) / 1000;
    per_channel * channels
}

/// The number of frames of `len` interleaved samples of `source_channels`
/// channels, a shorter last frame included.
pub open spec fn frame_count(len: int, source_channels: int) -> int {
    if len % source_channels == 0 {
        len / source_channels
    } else {
        len / source_channels + 1
    }
}

/// The interleaved samples mapped to `output_channels` channels: each output
/// channel takes the source channel of the same number, or the last one.
pub open spec fn channel_mapped<T>(samples: Seq<T>, source_channels: int, output_channels: int) -> Seq<T> {
    Seq::new(
        (frame_count(samples.len() as int, source_channels) * output_channels) as nat,
        |k: int|
            samples[(k / output_channels) * source_channels + (if k % output_channels < source_channels {
                k % output_channels
            } else {
                source_channels - 1
            })],
    )
}

/// Maps interleaved frames of `source_channels` samples to frames of
/// `output_channels` samples (see `channel_mapped`). A shorter last frame is
/// mapped too when it holds every channel that the mapping reads.
pub fn map_channels<T: Copy>(samples: &[T], source_channels: usize, output_channels: usize) -> (r: Vec<T>)
    requires
        source_channels > 0,
        (samples@.len() as int) % (source_channels as int) == 0 || output_channels <= (samples@.len() as int) % (
        source_channels as int),
        frame_count(samples@.len() as int, source_channels as int) * output_channels <= usize::MAX,
    ensures
        r@ == channel_mapped(samples@, source_channels as int, output_channels as int),
{
    let n = samples.len();
    let frames = if n % source_channels == 0 {
        n / source_channels
    } else {
        assert(n != 0) by {
            if n == 0 {
                assert(0usize % source_channels == 0) by (nonlinear_arith)
                    requires
                        source_channels > 0,
                ;
            }
        }
        assert(n / source_channels < n) by (nonlinear_arith)
            requires
                source_channels > 1,
                n > 0,
        ;
        n / source_channels + 1
    };
    let ghost target = channel_mapped(samples@, source_channels as int, output_channels as int);
    let mut r: Vec<T> = Vec::new();
    let mut f: usize = 0;
    while f < frames
        invariant
            source_channels > 0,
            (n as int) % (source_channels as int) == 0 || output_channels <= (n as int) % (source_channels as int),
            frames == frame_count(n as int, source_channels as int),
            n == samples@.len(),
            frames * output_channels <= usize::MAX,
            f <= frames,
            target == channel_mapped(samples@, source_channels as int, output_channels as int),
            r@ == target.take(f * output_channels),
        decreases frames - f,
    {
        let mut ch: usize = 0;
        while ch < output_channels
            invariant
                source_channels > 0,
                (n as int) % (source_channels as int) == 0 || output_channels <= (n as int) % (source_channels as int),
                frames == frame_count(n as int, source_channels as int),
                n == samples@.len(),
                frames * output_channels <= usize::MAX,
                f < frames,
                ch <= output_channels,
                target == channel_mapped(samples@, source_channels as int, output_channels as int),
                r@ == target.take(f * output_channels + ch),
            decreases output_channels - ch,
        {
            let src = if ch < source_channels { ch } else { source_channels - 1 };
            proof {
                lemma_frame_index(f as int, ch as int, frames as int, source_channels as int, output_channels as int, n as int);
            }
            let idx = f * source_channels + src;
            r.push(samples[idx]);
            assert(r@ =~= target.take(f * output_channels + ch + 1));
            ch = ch + 1;
        }
        assert(f * output_channels + output_channels == (f + 1) * output_channels) by (nonlinear_arith);
        f = f + 1;
    }
    assert(r@ =~= target);
    r
}

/// The samples of channel `c` in interleaved frames of `channels` channels.
pub open spec fn channel_samples<T>(samples: Seq<T>, channels: int, c: int) -> Seq<T> {
    Seq::new(((samples.len() + channels - 1 - c) / channels) as nat, |k: int| samples[k * channels + c])
}

/// How many samples channel `c` has among `n` interleaved samples of
/// `channels` channels, and that each of them is within the samples.
proof fn lemma_channel_count(n: int, channels: int, c: int, count: int)
    requires
        0 <= c < channels,
        n >= 0,
        count == if n > c {
            (n - c) / channels + if (n - c) % channels != 0 { 1int } else { 0int }
        } else {
            0
        },
    ensures
        count == (n + channels - 1 - c) / channels,
        forall|k: int| 0 <= k < count ==> #[trigger] (k * channels) + c < n,
        count >= 0,
{
    if n > c {
        let m = n - c;
        let q = m / channels;
        let r = m % channels;
        vstd::arithmetic::div_mod::lemma_fundamental_div_mod(m, channels);
        assert(0 <= r < channels);
        assert(m == channels * q + r);
        assert(q >= 0) by (nonlinear_arith)
            requires
                m > 0,
                channels > 0,
                q == m / channels,
        ;
        if r == 0 {
            assert(n + channels - 1 - c == q * channels + (channels - 1)) by (nonlinear_arith)
                requires
                    m == channels * q,
                    m == n - c,
            ;
            vstd::arithmetic::div_mod::lemma_fundamental_div_mod_converse(n + channels - 1 - c, channels, q, channels - 1);
        } else {
            assert(n + channels - 1 - c == (q + 1) * channels + (r - 1)) by (nonlinear_arith)
                requires
                    m == channels * q + r,
                    m == n - c,
            ;
            vstd::arithmetic::div_mod::lemma_fundamental_div_mod_converse(n + channels - 1 - c, channels, q + 1, r - 1);
        }
        assert forall|k: int| 0 <= k < count implies #[trigger] (k * channels) + c < n by {
            if k < q {
                assert(k * channels + channels <= q * channels) by (nonlinear_arith)
                    requires
                        0 <= k < q,
                        channels > 0,
                ;
                assert(q * channels == channels * q) by (nonlinear_arith);
            } else {
                assert(k == q);
                assert(r != 0);
                assert(k * channels == channels * q) by (nonlinear_arith)
                    requires
                        k == q,
                ;
            }
        }
    } else {
        vstd::arithmetic::div_mod::lemma_fundamental_div_mod_converse(n + channels - 1 - c, channels, 0, n + channels - 1 - c);
    }
}

/// Splits interleaved samples into one list per channel: sample `i` goes to
/// channel `i % channels`, in order.
pub fn deinterleave<T: Copy>(samples: &[T], channels: usize) -> (r: Vec<Vec<T>>)
    requires
        channels > 0,
    ensures
        r@.len() == channels,
        forall|c: int| 0 <= c < channels ==> #[trigger] r@[c]@ == channel_samples(samples@, channels as int, c),
{
    let n = samples.len();
    let mut r: Vec<Vec<T>> = Vec::new();
    let mut c: usize = 0;
    while c < channels
        invariant
            c <= channels,
            r@.len() == c,
            n == samples@.len(),
            forall|d: int| 0 <= d < c ==> #[trigger] r@[d]@ == channel_samples(samples@, channels as int, d),
        decreases channels - c,
    {
        let count: usize = if n > c {
            let m = n - c;
            if m % channels != 0 {
                assert(m / channels < m) by (nonlinear_arith)
                    requires
                        channels > 1,
                        m > 0,
                ;
                m / channels + 1
            } else {
                m / channels
            }
        } else {
            0
        };
        proof { lemma_channel_count(n as int, channels as int, c as int, count as int); }
        let mut v: Vec<T> = Vec::new();
        let mut k: usize = 0;
        while k < count
            invariant
                c < channels,
                n == samples@.len(),
                k <= count,
                v@.len() == k,
                count == (n + channels - 1 - c) / (channels as int),
                forall|j: int| 0 <= j < count ==> #[trigger] (j * channels) + c < n,
                forall|j: int| 0 <= j < k ==> #[trigger] v@[j] == samples@[j * channels + c],
            decreases count - k,
        {
            assert((k as int * channels) + c < n);
            let idx = k * channels + c;
            v.push(samples[idx]);
            k = k + 1;
        }
        assert(v@ =~= channel_samples(samples@, channels as int, c as int));
        r.push(v);
        c = c + 1;
    }
    r
}

/// Interleaves `frames` frames from per-channel samples into
/// `output_channels` channels: each output channel takes the channel of the
/// same number, or the last one.
pub open spec fn interleaved_mapped<T>(per_channel: Seq<Seq<T>>, frames: int, output_channels: int) -> Seq<T> {
    Seq::new(
        (frames * output_channels) as nat,
        |i: int|
            per_channel[if i % output_channels < per_channel.len() {
                i % output_channels
            } else {
                per_channel.len() - 1
            }][i / output_channels],
    )
}

/// Interleaves per-channel samples (see `interleaved_mapped`).
pub fn interleave_mapped<T: Copy>(per_channel: &Vec<Vec<T>>, frames: usize, output_channels: usize) -> (r: Vec<T>)
    requires
        per_channel@.len() > 0,
        forall|c: int| 0 <= c < per_channel@.len() ==> frames <= (#[trigger] per_channel@[c])@.len(),
        frames * output_channels <= usize::MAX,
    ensures
        r@ == interleaved_mapped(per_channel@.map_values(|v: Vec<T>| v@), frames as int, output_channels as int),
{
    let ghost pc = per_channel@.map_values(|v: Vec<T>| v@);
    let ghost target = interleaved_mapped(pc, frames as int, output_channels as int);
    let mut r: Vec<T> = Vec::new();
    let mut f: usize = 0;
    while f < frames
        invariant
            f <= frames,
            per_channel@.len() > 0,
            forall|c: int| 0 <= c < per_channel@.len() ==> frames <= (#[trigger] per_channel@[c])@.len(),
            frames * output_channels <= usize::MAX,
            pc == per_channel@.map_values(|v: Vec<T>| v@),
            target == interleaved_mapped(pc, frames as int, output_channels as int),
            r@ == target.take(f * output_channels),
        decreases frames - f,
    {
        let mut ch: usize = 0;
        while ch < output_channels
            invariant
                f < frames,
                ch <= output_channels,
                per_channel@.len() > 0,
                forall|c: int| 0 <= c < per_channel@.len() ==> frames <= (#[trigger] per_channel@[c])@.len(),
                frames * output_channels <= usize::MAX,
                pc == per_channel@.map_values(|v: Vec<T>| v@),
                target == interleaved_mapped(pc, frames as int, output_channels as int),
                r@ == target.take(f * output_channels + ch),
            decreases output_channels - ch,
        {
            let src = if ch < per_channel.len() { ch } else { per_channel.len() - 1 };
            let ghost i: int = f * output_channels + ch;
            assert(i / (output_channels as int) == f && i % (output_channels as int) == ch) by (nonlinear_arith)
                requires
                    i == f * output_channels + ch,
                    ch < output_channels,
                    f >= 0,
            ;
            assert(i < frames * output_channels) by (nonlinear_arith)
                requires
                    i == f * output_channels + ch,
                    ch < output_channels,
                    f < frames,
            ;
            assert(per_channel@[src as int]@.len() >= frames);
            r.push(per_channel[src][f]);
            assert(r@ =~= target.take(f * output_channels + ch + 1));
            ch = ch + 1;
        }
        assert(f * output_channels + output_channels == (f + 1) * output_channels) by (nonlinear_arith);
        f = f + 1;
    }
    assert(r@ =~= target);
    r
}

// ------------------------------------------------------------------------
// Decoding one song
// ------------------------------------------------------------------------

/// Where the decoding loop of one song stands.
#[derive(Debug, Clone, Copy, PartialEq, Eq, Structural)]
pub struct PlayState {
    /// The last whole second of song time reported.
    pub last_time: u64,
    /// The audio output is open.
    pub output_open: bool,
    /// The fallback rate being tried while the output is reopened.
    pub fallback_index: usize,
}

/// What reading the next packet gave.
#[derive(Debug, Clone, Copy, PartialEq, Eq, Structural)]
pub enum ReadOutcome {
    /// A packet at this whole second of song time.
    Packet { time_secs: u64 },
    EndOfStream,
    UnexpectedEof,
    Failed,
}

/// What decoding a packet gave.
#[derive(Debug, Clone, Copy, PartialEq, Eq, Structural)]
pub enum DecodeOutcome {
    Decoded,
    /// A damaged packet, skipped.
    DecodeError,
    Failed,
}

/// What happens in the decoding loop.
#[derive(Debug, Clone, Copy, PartialEq, Eq, Structural)]
pub enum DecodeEvent {
    /// A turn of the loop begins: whether a stop was asked for.
    Turn { stop_requested: bool },
    /// The pending skip time was taken (0 for none); whether the source can
    /// seek.
    Skip { skip_to: u16, seekable: bool },
    Read(ReadOutcome),
    Decoded(DecodeOutcome),
    /// Opening the output for the first decoded audio succeeded or not;
    /// whether the device asked for a rate change, and how many fallback
    /// rates there are.
    OutputOpened { ok: bool, rate_chosen: bool, fallback_count: usize },
    /// Reopening the output at the fallback rate being tried succeeded or not.
    FallbackOpened { ok: bool, fallback_count: usize },
    Written { ok: bool },
}

/// Why playing a song failed.
#[derive(Debug, Clone, Copy, PartialEq, Eq, Structural)]
pub enum PlayFailure {
    Read,
    Decode,
    OutputUnavailable,
}

/// What the decoding loop does next.
#[derive(Debug, Clone, Copy, PartialEq, Eq, Structural)]
pub enum PlayAction {
    /// Take the pending skip time, leaving none pending.
    TakeSkip,
    /// Seek to this second, then read the next packet.
    SeekAndRead(u16),
    ReadPacket,
    /// Report the song time when given, then decode the packet.
    Decode { report_time: Option<u64> },
    OpenOutput,
    /// Reopen the output for fallback rate number `n`.
    TryFallback(usize),
    Write,
    /// Begin the next turn.
    Continue,
    /// End with this result, flushing the output first when it is open.
    Finish { result: PlaybackResult, flush: bool },
    /// End with a failure, flushing the output first when it is open.
    Fail { reason: PlayFailure, flush: bool },
}

/// The decoding loop's next state and action: a stop ends with
/// `PlaybackStopped` before any skip time is taken; otherwise the pending
/// skip time is taken and sought when the source can seek; the end
/// of the stream (or an unexpected end of file) ends with `SongFinished`;
/// other read errors fail; a damaged packet is skipped; the output opens on
/// the first decoded audio, and when it refuses and the device asked for no
/// rate change, each fallback rate is tried until one opens, the song then
/// failing all the same; a failed write closes the output.
pub open spec fn play_next(s: PlayState, e: DecodeEvent) -> (PlayState, PlayAction) {
    match e {
        DecodeEvent::Turn { stop_requested } => if stop_requested {
            (s, PlayAction::Finish { result: PlaybackResult::PlaybackStopped, flush: s.output_open })
        } else {
            (s, PlayAction::TakeSkip)
        },
        DecodeEvent::Skip { skip_to, seekable } => if seekable && skip_to > 0 {
            (s, PlayAction::SeekAndRead(skip_to))
        } else {
            (s, PlayAction::ReadPacket)
        },
        DecodeEvent::Read(r) => match r {
            ReadOutcome::Packet { time_secs } => (
                PlayState { last_time: time_secs, ..s },
                PlayAction::Decode { report_time: if time_secs != s.last_time { Some(time_secs) } else { None } },
            ),
            ReadOutcome::EndOfStream => (s, PlayAction::Finish { result: PlaybackResult::SongFinished, flush: s.output_open }),
            ReadOutcome::UnexpectedEof => (s, PlayAction::Finish { result: PlaybackResult::SongFinished, flush: s.output_open }),
            ReadOutcome::Failed => (s, PlayAction::Fail { reason: PlayFailure::Read, flush: s.output_open }),
        },
        DecodeEvent::Decoded(d) => match d {
            DecodeOutcome::Decoded => (s, if s.output_open { PlayAction::Write } else { PlayAction::OpenOutput }),
            DecodeOutcome::DecodeError => (s, PlayAction::Continue),
            DecodeOutcome::Failed => (s, PlayAction::Fail { reason: PlayFailure::Decode, flush: s.output_open }),
        },
        DecodeEvent::OutputOpened { ok, rate_chosen, fallback_count } => if ok {
            (PlayState { output_open: true, ..s }, PlayAction::Write)
        } else if !rate_chosen && fallback_count > 0 {
            (PlayState { fallback_index: 0, ..s }, PlayAction::TryFallback(0))
        } else {
            (s, PlayAction::Fail { reason: PlayFailure::OutputUnavailable, flush: s.output_open })
        },
        DecodeEvent::FallbackOpened { ok, fallback_count } => if ok {
            (
                PlayState { output_open: true, ..s },
                PlayAction::Fail { reason: PlayFailure::OutputUnavailable, flush: true },
            )
        } else if s.fallback_index + 1 < fallback_count {
            (
                PlayState { fallback_index: (s.fallback_index + 1) as usize, ..s },
                PlayAction::TryFallback((s.fallback_index + 1) as usize),
            )
        } else {
            (s, PlayAction::Fail { reason: PlayFailure::OutputUnavailable, flush: s.output_open })
        },
        DecodeEvent::Written { ok } => (PlayState { output_open: s.output_open && ok, ..s }, PlayAction::Continue),
    }
}

/// The state before the first turn of a song.
pub open spec fn play_start_spec() -> PlayState {
    PlayState { last_time: 0, output_open: false, fallback_index: 0 }
}

/// The decoding loop's state before the first turn.
pub fn play_start() -> (r: PlayState)
    ensures
        r == play_start_spec(),
{
    PlayState { last_time: 0, output_open: false, fallback_index: 0 }
}

/// The decoding loop's next state and action (see `play_next`).
pub fn play_step(state: PlayState, event: DecodeEvent) -> (r: (PlayState, PlayAction))
    ensures
        r == play_next(state, event),
{
    let s = state;
    match event {
        DecodeEvent::Turn { stop_requested } => if stop_requested {
            (s, PlayAction::Finish { result: PlaybackResult::PlaybackStopped, flush: s.output_open })
        } else {
            (s, PlayAction::TakeSkip)
        },
        DecodeEvent::Skip { skip_to, seekable } => if seekable && skip_to > 0 {
            (s, PlayAction::SeekAndRead(skip_to))
        } else {
            (s, PlayAction::ReadPacket)
        },
        DecodeEvent::Read(r) => match r {
            ReadOutcome::Packet { time_secs } => {
                let report = if time_secs != s.last_time { Some(time_secs) } else { None };
                (PlayState { last_time: time_secs, ..s }, PlayAction::Decode { report_time: report })
            },
            ReadOutcome::EndOfStream => (s, PlayAction::Finish { result: PlaybackResult::SongFinished, flush: s.output_open }),
            ReadOutcome::UnexpectedEof => (s, PlayAction::Finish { result: PlaybackResult::SongFinished, flush: s.output_open }),
            ReadOutcome::Failed => (s, PlayAction::Fail { reason: PlayFailure::Read, flush: s.output_open }),
        },
        DecodeEvent::Decoded(d) => match d {
            DecodeOutcome::Decoded => (s, if s.output_open { PlayAction::Write } else { PlayAction::OpenOutput }),
            DecodeOutcome::DecodeError => (s, PlayAction::Continue),
            DecodeOutcome::Failed => (s, PlayAction::Fail { reason: PlayFailure::Decode, flush: s.output_open }),
        },
        DecodeEvent::OutputOpened { ok, rate_chosen, fallback_count } => if ok {
            (PlayState { output_open: true, ..s }, PlayAction::Write)
        } else if !rate_chosen && fallback_count > 0 {
            (PlayState { fallback_index: 0, ..s }, PlayAction::TryFallback(0))
        } else {
            (s, PlayAction::Fail { reason: PlayFailure::OutputUnavailable, flush: s.output_open })
        },
        DecodeEvent::FallbackOpened { ok, fallback_count } => if ok {
            (PlayState { output_open: true, ..s }, PlayAction::Fail { reason: PlayFailure::OutputUnavailable, flush: true })
        } else if s.fallback_index < fallback_count && fallback_count - s.fallback_index > 1 {
            let n = s.fallback_index + 1;
            (PlayState { fallback_index: n, ..s }, PlayAction::TryFallback(n))
        } else {
            (s, PlayAction::Fail { reason: PlayFailure::OutputUnavailable, flush: s.output_open })
        },
        DecodeEvent::Written { ok } => (PlayState { output_open: s.output_open && ok, ..s }, PlayAction::Continue),
    }
}

/// A stop request ends the song with `PlaybackStopped` before anything else:
/// no skip time is taken and no output is opened. Otherwise the pending skip
/// time is taken, then sought when the source can seek, and the next packet is
/// read.
pub proof fn law_turn_stops_or_seeks(s: PlayState, skip_to: u16, seekable: bool)
    ensures
        (play_next(s, DecodeEvent::Turn { stop_requested: true }) == (
            s,
            PlayAction::Finish { result: PlaybackResult::PlaybackStopped, flush: s.output_open },
        )),
        play_next(s, DecodeEvent::Turn { stop_requested: true }).1 != PlayAction::TakeSkip,
        play_next(s, DecodeEvent::Turn { stop_requested: true }).1 != PlayAction::OpenOutput,
        play_next(s, DecodeEvent::Turn { stop_requested: false }) == (s, PlayAction::TakeSkip),
        (play_next(s, DecodeEvent::Skip { skip_to, seekable }).1 == if seekable && skip_to > 0 {
            PlayAction::SeekAndRead(skip_to)
        } else {
            PlayAction::ReadPacket
        }),
{
}

/// A song whose first turn finds a stop ends with `PlaybackStopped` at once:
/// the output was never opened, so nothing is flushed, and the skip time is
/// left pending.
pub proof fn law_stop_before_start(stop_requested: bool)
    requires
        stop_requested,
    ensures
        play_next(play_start_spec(), DecodeEvent::Turn { stop_requested }) == (
            play_start_spec(),
            PlayAction::Finish { result: PlaybackResult::PlaybackStopped, flush: false },
        ),
{
}

/// The end of the stream, and an unexpected end of file, finish the song;
/// any other read error fails it.
pub proof fn law_read_end_finishes_song(s: PlayState)
    ensures
        (play_next(s, DecodeEvent::Read(ReadOutcome::EndOfStream)).1 == PlayAction::Finish {
            result: PlaybackResult::SongFinished,
            flush: s.output_open,
        }),
        (play_next(s, DecodeEvent::Read(ReadOutcome::UnexpectedEof)).1 == PlayAction::Finish {
            result: PlaybackResult::SongFinished,
            flush: s.output_open,
        }),
        (play_next(s, DecodeEvent::Read(ReadOutcome::Failed)).1 == PlayAction::Fail {
            reason: PlayFailure::Read,
            flush: s.output_open,
        }),
{
}

/// The song time is reported once per second: a second packet in the same
/// second reports nothing, one in another second reports its second.
pub proof fn law_time_reported_once(s: PlayState, t: u64, u: u64)
    ensures
        (play_next(
            play_next(s, DecodeEvent::Read(ReadOutcome::Packet { time_secs: t })).0,
            DecodeEvent::Read(ReadOutcome::Packet { time_secs: u }),
        ).1 == PlayAction::Decode { report_time: if u == t { None } else { Some(u) } }),
{
}

/// When the output refuses the song and the device asked for no rate change,
/// the fallback rates are tried in order, each once, until one opens or none
/// is left; when the device asked for a rate change, the song fails at once.
pub proof fn law_fallbacks_tried_in_order(s: PlayState, count: usize)
    requires
        count > 0,
        s.fallback_index < count,
    ensures
        (play_next(s, DecodeEvent::OutputOpened { ok: false, rate_chosen: false, fallback_count: count }).1
            == PlayAction::TryFallback(0)),
        (play_next(s, DecodeEvent::OutputOpened { ok: false, rate_chosen: true, fallback_count: count }).1
            == PlayAction::Fail { reason: PlayFailure::OutputUnavailable, flush: s.output_open }),
        (play_next(s, DecodeEvent::FallbackOpened { ok: false, fallback_count: count }).1 == if s.fallback_index + 1
            < count {
            PlayAction::TryFallback((s.fallback_index + 1) as usize)
        } else {
            PlayAction::Fail { reason: PlayFailure::OutputUnavailable, flush: s.output_open }
        }),
{
}

/// Splitting whole frames into channels and interleaving them again into as
/// many channels gives back the samples.
pub proof fn law_interleave_undoes_deinterleave<T>(samples: Seq<T>, channels: int)
    requires
        channels > 0,
        (samples.len() as int) % channels == 0,
    ensures
        interleaved_mapped(
            Seq::new(channels as nat, |c: int| channel_samples(samples, channels, c)),
            (samples.len() as int) / channels,
            channels,
        ) == samples,
{
    let n = samples.len() as int;
    let per = Seq::new(channels as nat, |c: int| channel_samples(samples, channels, c));
    let m = interleaved_mapped(per, n / channels, channels);
    assert(n / channels * channels == n) by (nonlinear_arith)
        requires
            channels > 0,
            n % channels == 0,
    {
        assert(n == channels * (n / channels) + n % channels);
    }
    assert forall|i: int| 0 <= i < n implies m[i] == samples[i] by {
        let c = i % channels;
        let k = i / channels;
        assert(0 <= c < channels && k * channels + c == i && 0 <= k) by (nonlinear_arith)
            requires
                channels > 0,
                0 <= i,
                c == i % channels,
                k == i / channels,
        {
            assert(i == channels * (i / channels) + i % channels);
        }
        assert(k < (n + channels - 1 - c) / channels) by (nonlinear_arith)
            requires
                channels > 0,
                0 <= c < channels,
                k * channels + c == i,
                i < n,
                n % channels == 0,
                k >= 0,
        {
            assert(n == channels * (n / channels));
            assert(k < n / channels);
            assert((n + channels - 1 - c) / channels >= n / channels);
        }
    }
    assert(m =~= samples);
}

/// The output stays open across writes that succeed: a write changes nothing
/// but closing the output when it fails, and the loop goes on. So after a
/// successful write the next decoded audio is written to the same output,
/// and after a failed one the output is opened again.
pub proof fn law_write_keeps_output(s: PlayState, ok: bool)
    ensures
        (play_next(s, DecodeEvent::Written { ok }).1 == PlayAction::Continue),
        (play_next(s, DecodeEvent::Written { ok }).0.last_time == s.last_time),
        (play_next(s, DecodeEvent::Written { ok }).0.fallback_index == s.fallback_index),
        (ok ==> play_next(s, DecodeEvent::Written { ok }).0 == s),
        (!ok ==> !play_next(s, DecodeEvent::Written { ok }).0.output_open),
        (s.output_open && ok ==> play_next(
            play_next(s, DecodeEvent::Written { ok }).0,
            DecodeEvent::Decoded(DecodeOutcome::Decoded),
        ).1 == PlayAction::Write),
        (!ok ==> play_next(
            play_next(s, DecodeEvent::Written { ok }).0,
            DecodeEvent::Decoded(DecodeOutcome::Decoded),
        ).1 == PlayAction::OpenOutput),
{
}

/// Decoded audio goes to the open output, or opens it first; once opened it
/// is written. A damaged packet is skipped and changes nothing.
pub proof fn law_decoded_audio_is_written(s: PlayState, rate_chosen: bool, fallback_count: usize)
    ensures
        (play_next(s, DecodeEvent::Decoded(DecodeOutcome::Decoded)).0 == s),
        (play_next(s, DecodeEvent::Decoded(DecodeOutcome::Decoded)).1 == if s.output_open {
            PlayAction::Write
        } else {
            PlayAction::OpenOutput
        }),
        (play_next(s, DecodeEvent::OutputOpened { ok: true, rate_chosen, fallback_count }).0.output_open),
        (play_next(s, DecodeEvent::OutputOpened { ok: true, rate_chosen, fallback_count }).1 == PlayAction::Write),
        (play_next(s, DecodeEvent::Decoded(DecodeOutcome::DecodeError)) == (s, PlayAction::Continue)),
{
}

/// How a song ends is decided by what happened: it is stopped only on a stop
/// request, finishes only at the end of its stream, and every end or failure
/// flushes the output exactly when it is open (a fallback rate that opened
/// counting as open).
pub proof fn law_song_ends_only_so(s: PlayState, e: DecodeEvent)
    ensures
        (play_next(s, e).1 matches PlayAction::Finish { result, .. } && result == PlaybackResult::PlaybackStopped
            ==> e == DecodeEvent::Turn { stop_requested: true }),
        (play_next(s, e).1 matches PlayAction::Finish { result, .. } && result == PlaybackResult::SongFinished ==> (e
            == DecodeEvent::Read(ReadOutcome::EndOfStream) || e == DecodeEvent::Read(ReadOutcome::UnexpectedEof))),
        (play_next(s, e).1 matches PlayAction::Finish { result, .. } ==> (result == PlaybackResult::PlaybackStopped
            || result == PlaybackResult::SongFinished)),
        (play_next(s, e).1 matches PlayAction::Finish { flush, .. } ==> flush == s.output_open),
        (play_next(s, e).1 matches PlayAction::Fail { flush, .. } ==> flush == (s.output_open || (e is FallbackOpened
            && e->FallbackOpened_ok))),
        (play_next(s, e).1 == PlayAction::TakeSkip ==> e == DecodeEvent::Turn { stop_requested: false }),
{
}

/// The song time is the time of the last packet read, and only reading a
/// packet changes it.
pub proof fn law_song_time_follows_packets(s: PlayState, e: DecodeEvent)
    ensures
        (e matches DecodeEvent::Read(ReadOutcome::Packet { time_secs }) ==> play_next(s, e).0.last_time == time_secs),
        (!(e matches DecodeEvent::Read(ReadOutcome::Packet { .. })) ==> play_next(s, e).0.last_time == s.last_time),
{
}

/// The queue loop goes on after a successful move to the next song, and plays
/// the song it finds; it ends with `QueueFinished` only when there is no song
/// to play or no next song, with `PlaybackStopped` only on a stop, and with
/// `PlaybackFailed` only when a failing song may not be retried.
pub proof fn law_queue_loop_goes_on(s: QueueLoopState, e: QueueEvent)
    ensures
        (queue_loop_next(s, QueueEvent::Moved { moved: true }) == (s, QueueAction::LookForSong)),
        (queue_loop_next(s, QueueEvent::CurrentSong { present: true }) == (s, QueueAction::PlaySong)),
        (queue_loop_next(s, e).1 matches QueueAction::End { result, .. } && result == PlaybackResult::QueueFinished ==> (e
            == QueueEvent::Moved { moved: false } || e == QueueEvent::CurrentSong { present: false })),
        (queue_loop_next(s, e).1 matches QueueAction::End { result, .. } && result == PlaybackResult::PlaybackStopped
            ==> (e == QueueEvent::RetryWaitOver { stop_requested: true } || e matches QueueEvent::SongEnded {
            outcome: SongOutcome::Ended(PlaybackResult::PlaybackStopped),
            ..
        })),
        (queue_loop_next(s, e).1 matches QueueAction::End { result, .. } && result == PlaybackResult::PlaybackFailed
            ==> (e matches QueueEvent::SongEnded { outcome: SongOutcome::Failed, stop_requested } && (stop_requested
            || s.retry_count >= MAX_RETRIES))),
        (queue_loop_next(s, e).1 matches QueueAction::WaitToRetry(n) ==> (n == s.retry_count + 1 && n <= MAX_RETRIES
            && queue_loop_next(s, e).0.retry_count == n)),
{
}

/// A relative seek moves the last known time by the offset, and never before
/// the start of the song.
pub proof fn law_seek_target_moves_by_offset(last_known_time: u32, offset_seconds: i32)
    requires
        last_known_time <= i32::MAX,
    ensures
        0 <= last_known_time + offset_seconds <= u16::MAX ==> seek_target_spec(last_known_time, offset_seconds)
            == last_known_time + offset_seconds,
        last_known_time + offset_seconds < 0 ==> seek_target_spec(last_known_time, offset_seconds) == 0,
{
}

/// Mapping frames to the number of channels they already have changes nothing.
pub proof fn law_same_channel_count_keeps_samples<T>(samples: Seq<T>, channels: int)
    requires
        channels > 0,
        (samples.len() as int) % channels == 0,
    ensures
        channel_mapped(samples, channels, channels) == samples,
{
    let m = channel_mapped(samples, channels, channels);
    assert((samples.len() as int) / channels * channels == samples.len()) by (nonlinear_arith)
        requires
            channels > 0,
            (samples.len() as int) % channels == 0,
    {
        assert(samples.len() as int == channels * ((samples.len() as int) / channels) + (samples.len() as int) % channels);
    }
    assert forall|k: int| 0 <= k < samples.len() implies m[k] == samples[k] by {
        assert((k / channels) * channels + k % channels == k) by (nonlinear_arith)
            requires
                channels > 0,
        {
            assert(k == channels * (k / channels) + k % channels);
        }
        assert(k % channels < channels) by (nonlinear_arith)
            requires
                channels > 0,
        {}
    }
    assert(m =~= samples);
}

/// A failing song is tried again at most `MAX_RETRIES` times: each retry has
/// the next number, and none goes past the limit.
pub proof fn law_retries_are_bounded(outcome: SongOutcome, retry_count: u32, stop_requested: bool)
    ensures
        next_step(outcome, retry_count, stop_requested) matches PlaybackStep::Retry(n) ==> n == retry_count + 1
            && n <= MAX_RETRIES,
{
}

proof fn lemma_frame_index(f: int, ch: int, frames: int, sc: int, oc: int, len: int)
    requires
        0 <= f < frames,
        0 <= ch < oc,
        sc > 0,
        frames == frame_count(len, sc),
        len >= 0,
        len % sc == 0 || oc <= len % sc,
    ensures
        (f * oc + ch) / oc == f,
        (f * oc + ch) % oc == ch,
        f * sc + (if ch < sc { ch } else { sc - 1 }) < len,
        f * oc + ch < frames * oc,
{
    assert((f * oc + ch) / oc == f) by (nonlinear_arith)
        requires
            0 <= ch < oc,
            f >= 0,
    ;
    assert((f * oc + ch) % oc == ch) by (nonlinear_arith)
        requires
            0 <= ch < oc,
            f >= 0,
    ;
    assert(len == sc * (len / sc) + len % sc) by (nonlinear_arith)
        requires
            sc > 0,
    ;
    assert(0 <= len % sc < sc) by (nonlinear_arith)
        requires
            sc > 0,
    ;
    assert((len / sc) * sc == sc * (len / sc)) by (nonlinear_arith);
    if f < len / sc {
        assert(f * sc + sc <= (len / sc) * sc) by (nonlinear_arith)
            requires
                0 <= f < len / sc,
                sc > 0,
        ;
        assert(f * sc + sc <= len);
    } else {
        assert(f == len / sc);
        assert(len % sc != 0);
        assert(f * sc == sc * (len / sc)) by (nonlinear_arith)
            requires
                f == len / sc,
        ;
        assert(ch < len % sc);
        assert(ch < sc);
        assert(f * sc + ch < len);
    }
    assert(f * oc + ch < frames * oc) by (nonlinear_arith)
        requires
            0 <= f < frames,
            0 <= ch < oc,
    ;
}

} // verus!
