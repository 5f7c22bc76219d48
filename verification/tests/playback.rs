use rsplayer::playback::{queue_loop_start, queue_loop_step, EndReport, QueueAction, QueueEvent, QueueLoopState};
use rsplayer::playback::{
    deinterleave, decide_after_song, first_supported_track, interleave_mapped, map_channels, parse_initial_time, parse_last_played_time,
    retry_message, ring_buffer_len, seek_target, too_many_failures, PlaybackResult, PlaybackStep, SongOutcome,
    TrackSummary, MAX_RETRIES,
};
use rsplayer::playback::{
    play_start, play_step, DecodeEvent, DecodeOutcome, PlayAction, PlayFailure, PlayState, ReadOutcome,
};
use rsplayer::text::format_decimal;

#[test]
fn a_stop_ends_playback() {
    let step = decide_after_song(SongOutcome::Ended(PlaybackResult::PlaybackStopped), 0, false);
    assert_eq!(step, PlaybackStep::Stop);
}

#[test]
fn finished_songs_move_on() {
    assert_eq!(decide_after_song(SongOutcome::Ended(PlaybackResult::SongFinished), 3, false), PlaybackStep::Next);
    assert_eq!(decide_after_song(SongOutcome::Ended(PlaybackResult::QueueFinished), 0, true), PlaybackStep::Next);
    assert_eq!(decide_after_song(SongOutcome::Ended(PlaybackResult::PlaybackFailed), 0, false), PlaybackStep::Next);
}

#[test]
fn failures_are_retried_up_to_the_limit() {
    assert_eq!(decide_after_song(SongOutcome::Failed, 0, false), PlaybackStep::Retry(1));
    assert_eq!(decide_after_song(SongOutcome::Failed, MAX_RETRIES - 1, false), PlaybackStep::Retry(MAX_RETRIES));
    assert_eq!(decide_after_song(SongOutcome::Failed, MAX_RETRIES, false), PlaybackStep::Fail);
    // no retry once a stop was asked for
    assert_eq!(decide_after_song(SongOutcome::Failed, 0, true), PlaybackStep::Fail);
}

#[test]
fn retry_notice() {
    assert_eq!(retry_message(1), "Retrying (1/5)...");
    assert_eq!(retry_message(5), "Retrying (5/5)...");
}

#[test]
fn queue_is_given_up_after_too_many_failures() {
    assert!(too_many_failures(10, 100));
    assert!(!too_many_failures(11, 100));
    assert!(too_many_failures(3, 3));
    assert!(!too_many_failures(2, 3));
    assert!(too_many_failures(0, 0));
}

#[test]
fn seeking_never_goes_before_the_start() {
    assert_eq!(seek_target(100, 10), 110);
    assert_eq!(seek_target(100, -10), 90);
    assert_eq!(seek_target(5, -10), 0);
    assert_eq!(seek_target(70000, 0), (70000u32 % 65536) as u16);
    // a time beyond i32::MAX is read as negative
    assert_eq!(seek_target(u32::MAX, 0), 0);
}

#[test]
fn stored_times_read_back() {
    assert_eq!(parse_last_played_time("123"), 123);
    assert_eq!(parse_last_played_time("65535"), 65535);
    assert_eq!(parse_last_played_time("65536"), 0);
    assert_eq!(parse_last_played_time("abc"), 0);
    assert_eq!(parse_last_played_time(""), 0);
    assert_eq!(parse_initial_time("4294967295"), u32::MAX);
    assert_eq!(parse_initial_time("4294967296"), 0);
    assert_eq!(parse_initial_time("+12"), 12);
}

#[test]
fn saved_time_reads_back_as_it_was_written() {
    for t in [0u64, 1, 59, 3600, 65535] {
        let text = format_decimal(t);
        assert_eq!(parse_last_played_time(&text) as u64, t);
        assert_eq!(parse_initial_time(&text) as u64, t);
    }
    let long = format_decimal(70000);
    assert_eq!(parse_last_played_time(&long), 0);
    assert_eq!(parse_initial_time(&long), 70000);
}

#[test]
fn first_playable_track_is_chosen() {
    let tracks = vec![
        TrackSummary { is_audio: false, is_null_codec: false },
        TrackSummary { is_audio: true, is_null_codec: true },
        TrackSummary { is_audio: true, is_null_codec: false },
        TrackSummary { is_audio: true, is_null_codec: false },
    ];
    assert_eq!(first_supported_track(&tracks), Some(2));
    assert_eq!(first_supported_track(&tracks[..2]), None);
    assert_eq!(first_supported_track(&[]), None);
}

#[test]
fn ring_buffer_holds_the_requested_time() {
    assert_eq!(ring_buffer_len(200, 44100, 2), 17640);
    assert_eq!(ring_buffer_len(1000, 48000, 1), 48000);
    assert_eq!(ring_buffer_len(0, 48000, 2), 0);
}

#[test]
fn channels_map_by_number_or_last() {
    let stereo = [1, 2, 3, 4];
    assert_eq!(map_channels(&stereo, 2, 2), vec![1, 2, 3, 4]);
    assert_eq!(map_channels(&stereo, 2, 1), vec![1, 3]);
    assert_eq!(map_channels(&stereo, 2, 4), vec![1, 2, 2, 2, 3, 4, 4, 4]);
    let mono = [7u8, 8];
    assert_eq!(map_channels(&mono, 1, 2), vec![7, 7, 8, 8]);
    assert!(map_channels::<u8>(&[], 2, 3).is_empty());
    // a shorter last frame is mapped when it has the channels read
    assert_eq!(map_channels(&[1, 2, 3], 2, 1), vec![1, 3]);
    assert_eq!(map_channels(&[1, 2, 3, 4, 5], 3, 2), vec![1, 2, 4, 5]);
    assert!(map_channels(&[1, 2, 3], 2, 0).is_empty());
}

#[test]
fn decoding_loop_stops_seeks_and_finishes() {
    let s = play_start();
    assert_eq!(s, PlayState { last_time: 0, output_open: false, fallback_index: 0 });
    // a stop is answered before the skip time is taken
    assert_eq!(
        play_step(s, DecodeEvent::Turn { stop_requested: true }),
        (s, PlayAction::Finish { result: PlaybackResult::PlaybackStopped, flush: false })
    );
    assert_eq!(play_step(s, DecodeEvent::Turn { stop_requested: false }), (s, PlayAction::TakeSkip));
    let skip = |skip_to, seekable| DecodeEvent::Skip { skip_to, seekable };
    assert_eq!(play_step(s, skip(5, true)).1, PlayAction::SeekAndRead(5));
    assert_eq!(play_step(s, skip(5, false)).1, PlayAction::ReadPacket);
    assert_eq!(play_step(s, skip(0, true)).1, PlayAction::ReadPacket);
    let (s1, a) = play_step(s, DecodeEvent::Read(ReadOutcome::Packet { time_secs: 3 }));
    assert_eq!(a, PlayAction::Decode { report_time: Some(3) });
    assert_eq!(play_step(s1, DecodeEvent::Read(ReadOutcome::Packet { time_secs: 3 })).1, PlayAction::Decode { report_time: None });
    let open = PlayState { output_open: true, ..s1 };
    assert_eq!(
        play_step(open, DecodeEvent::Read(ReadOutcome::UnexpectedEof)).1,
        PlayAction::Finish { result: PlaybackResult::SongFinished, flush: true }
    );
    assert_eq!(
        play_step(s1, DecodeEvent::Read(ReadOutcome::Failed)).1,
        PlayAction::Fail { reason: PlayFailure::Read, flush: false }
    );
}

#[test]
fn decoding_loop_opens_writes_and_falls_back() {
    let s = play_start();
    assert_eq!(play_step(s, DecodeEvent::Decoded(DecodeOutcome::Decoded)).1, PlayAction::OpenOutput);
    assert_eq!(play_step(s, DecodeEvent::Decoded(DecodeOutcome::DecodeError)).1, PlayAction::Continue);
    let (s1, a) = play_step(s, DecodeEvent::OutputOpened { ok: true, rate_chosen: false, fallback_count: 3 });
    assert!(s1.output_open);
    assert_eq!(a, PlayAction::Write);
    assert_eq!(play_step(s1, DecodeEvent::Decoded(DecodeOutcome::Decoded)).1, PlayAction::Write);
    let (s2, a) = play_step(s1, DecodeEvent::Written { ok: false });
    assert!(!s2.output_open);
    assert_eq!(a, PlayAction::Continue);
    // refused: fallback rates are tried in order, and the song fails even so
    let (f0, a) = play_step(s, DecodeEvent::OutputOpened { ok: false, rate_chosen: false, fallback_count: 2 });
    assert_eq!(a, PlayAction::TryFallback(0));
    let (f1, a) = play_step(f0, DecodeEvent::FallbackOpened { ok: false, fallback_count: 2 });
    assert_eq!(a, PlayAction::TryFallback(1));
    assert_eq!(
        play_step(f1, DecodeEvent::FallbackOpened { ok: false, fallback_count: 2 }).1,
        PlayAction::Fail { reason: PlayFailure::OutputUnavailable, flush: false }
    );
    let (opened, a) = play_step(f1, DecodeEvent::FallbackOpened { ok: true, fallback_count: 2 });
    assert!(opened.output_open);
    assert_eq!(a, PlayAction::Fail { reason: PlayFailure::OutputUnavailable, flush: true });
    assert_eq!(
        play_step(s, DecodeEvent::OutputOpened { ok: false, rate_chosen: true, fallback_count: 2 }).1,
        PlayAction::Fail { reason: PlayFailure::OutputUnavailable, flush: false }
    );
}

#[test]
fn end_of_stream_finishes_the_song_and_a_decode_failure_fails_it() {
    let open = PlayState { last_time: 12, output_open: true, fallback_index: 0 };
    assert_eq!(
        play_step(open, DecodeEvent::Read(ReadOutcome::EndOfStream)),
        (open, PlayAction::Finish { result: PlaybackResult::SongFinished, flush: true })
    );
    assert_eq!(
        play_step(open, DecodeEvent::Decoded(DecodeOutcome::Failed)).1,
        PlayAction::Fail { reason: PlayFailure::Decode, flush: true }
    );
    // a stop is answered before anything else, the output flushed
    assert_eq!(
        play_step(open, DecodeEvent::Turn { stop_requested: true }),
        (open, PlayAction::Finish { result: PlaybackResult::PlaybackStopped, flush: true })
    );
}

#[test]
fn channels_split_and_join_again() {
    let samples = [1, 2, 3, 4, 5, 6];
    let per = deinterleave(&samples, 2);
    assert_eq!(per, vec![vec![1, 3, 5], vec![2, 4, 6]]);
    assert_eq!(interleave_mapped(&per, 3, 2), samples.to_vec());
    // a shorter last frame leaves the later channels one sample short
    assert_eq!(deinterleave(&[1, 2, 3, 4, 5], 3), vec![vec![1, 4], vec![2, 5], vec![3]]);
    // mono to stereo repeats the one channel; fewer frames than held are taken
    let mono = deinterleave(&[7, 8, 9], 1);
    assert_eq!(interleave_mapped(&mono, 2, 2), vec![7, 7, 8, 8]);
    assert!(deinterleave::<u8>(&[], 2).iter().all(|c| c.is_empty()));
}

#[test]
fn queue_loop_plays_retries_and_ends() {
    let (s, a) = queue_loop_start();
    assert_eq!(a, QueueAction::LookForSong);
    assert_eq!(
        queue_loop_step(s, QueueEvent::CurrentSong { present: false }).1,
        QueueAction::End { result: PlaybackResult::QueueFinished, report: EndReport::Stopped }
    );
    assert_eq!(queue_loop_step(s, QueueEvent::CurrentSong { present: true }).1, QueueAction::PlaySong);
    let (s1, a) = queue_loop_step(s, QueueEvent::SongEnded { outcome: SongOutcome::Failed, stop_requested: false });
    assert_eq!((s1, a), (QueueLoopState { retry_count: 1 }, QueueAction::WaitToRetry(1)));
    assert_eq!(
        queue_loop_step(s1, QueueEvent::RetryWaitOver { stop_requested: true }).1,
        QueueAction::End { result: PlaybackResult::PlaybackStopped, report: EndReport::Stopped }
    );
    assert_eq!(queue_loop_step(s1, QueueEvent::RetryWaitOver { stop_requested: false }).1, QueueAction::LookForSong);
    let worn = QueueLoopState { retry_count: MAX_RETRIES };
    assert_eq!(
        queue_loop_step(worn, QueueEvent::SongEnded { outcome: SongOutcome::Failed, stop_requested: false }).1,
        QueueAction::End { result: PlaybackResult::PlaybackFailed, report: EndReport::Failed }
    );
    let done = SongOutcome::Ended(PlaybackResult::SongFinished);
    assert_eq!(
        queue_loop_step(s1, QueueEvent::SongEnded { outcome: done, stop_requested: false }),
        (QueueLoopState { retry_count: 0 }, QueueAction::MoveToNext)
    );
    assert_eq!(
        queue_loop_step(s, QueueEvent::Moved { moved: false }).1,
        QueueAction::End { result: PlaybackResult::QueueFinished, report: EndReport::Silent }
    );
    assert_eq!(
        queue_loop_step(s, QueueEvent::SongEnded { outcome: SongOutcome::Ended(PlaybackResult::PlaybackStopped), stop_requested: false }).1,
        QueueAction::End { result: PlaybackResult::PlaybackStopped, report: EndReport::Stopped }
    );
}
