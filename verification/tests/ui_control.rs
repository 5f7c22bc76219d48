use rsplayer::ui_control::{
    prevents_default, shortcut_for, ui_step, PageKind, ReportedState, Shortcut, Tab, UiAction, UiEvent, UiState,
    Visualizer,
};

fn state() -> UiState {
    UiState {
        volume: 80,
        max_volume: 255,
        pre_mute_volume: None,
        current_secs: 30,
        total_secs: 200,
        stop_updates: false,
        playing: false,
        local_browser_playback: false,
        playback_configured: false,
        ring_buffer_ms: 200,
        show_welcome_modal: false,
        show_keyboard_shortcuts: false,
        lyrics_modal_open: false,
        library_nav_open: true,
        has_lyrics: false,
        has_current_song: true,
        current_liked: false,
        skip_next_url_change: false,
        visualizer: Visualizer::Bounce,
        vu_meter_enabled: true,
        page: PageKind::Player,
        reconnecting: false,
    }
}

#[test]
fn keys_map_to_shortcuts() {
    assert_eq!(shortcut_for("?", false, false, false), Shortcut::ToggleShortcutsHelp);
    assert_eq!(shortcut_for("/", false, false, false), Shortcut::FocusSearch);
    assert_eq!(shortcut_for("Escape", false, false, false), Shortcut::CloseModals);
    assert_eq!(shortcut_for(" ", false, false, false), Shortcut::TogglePlayPause);
    assert_eq!(shortcut_for(" ", false, true, false), Shortcut::Ignore);
    assert_eq!(shortcut_for("ArrowLeft", false, false, false), Shortcut::Previous);
    assert_eq!(shortcut_for("ArrowLeft", false, false, true), Shortcut::SeekBackward);
    assert_eq!(shortcut_for("ArrowRight", false, true, true), Shortcut::SeekForward);
    assert_eq!(shortcut_for("ArrowRight", false, false, false), Shortcut::Next);
    assert_eq!(shortcut_for("ArrowUp", false, false, false), Shortcut::VolumeUp);
    assert_eq!(shortcut_for("ArrowDown", false, false, false), Shortcut::VolumeDown);
    assert_eq!(shortcut_for("M", false, false, true), Shortcut::ToggleMute);
    assert_eq!(shortcut_for("v", false, false, false), Shortcut::ToggleVisualizer);
    assert_eq!(shortcut_for("3", false, false, false), Shortcut::NavigateTo(Tab::Library));
    assert_eq!(shortcut_for("t", false, false, false), Shortcut::NavigateTo(Tab::LibraryStats));
    assert_eq!(shortcut_for("x", false, false, false), Shortcut::Ignore);
    // nothing while typing in a field
    assert_eq!(shortcut_for("m", true, false, false), Shortcut::Ignore);
    assert!(prevents_default(Shortcut::ToggleMute));
    assert!(!prevents_default(Shortcut::CloseModals));
    assert!(!prevents_default(Shortcut::Ignore));
}

#[test]
fn mute_remembers_the_volume() {
    let (s, a) = ui_step(state(), UiEvent::ToggleMute);
    assert_eq!(a, vec![UiAction::SetVol(0)]);
    assert_eq!(s.pre_mute_volume, Some(80));
    let muted = UiState { volume: 0, ..s };
    let (s, a) = ui_step(muted, UiEvent::ToggleMute);
    assert_eq!(a, vec![UiAction::SetVol(80)]);
    assert_eq!(s.pre_mute_volume, None);
    // with nothing remembered, unmuting goes to half the maximum
    let (_, a) = ui_step(UiState { volume: 0, ..state() }, UiEvent::ToggleMute);
    assert_eq!(a, vec![UiAction::SetVol(127)]);
}

#[test]
fn seeking_by_ten_seconds_stays_in_the_track() {
    let (s, a) = ui_step(state(), UiEvent::SeekBackward);
    assert_eq!(a, vec![UiAction::Seek(20), UiAction::ResumeUpdatesLater]);
    assert_eq!(s.current_secs, 20);
    assert!(s.stop_updates);
    let (_, a) = ui_step(UiState { current_secs: 4, ..state() }, UiEvent::SeekBackward);
    assert_eq!(a[0], UiAction::Seek(0));
    let (_, a) = ui_step(UiState { current_secs: 195, ..state() }, UiEvent::SeekForward);
    assert_eq!(a[0], UiAction::Seek(200));
    let local = UiState { local_browser_playback: true, ..state() };
    let (_, a) = ui_step(local, UiEvent::SeekForward);
    assert_eq!(a, vec![UiAction::SetAudioTime(40), UiAction::Seek(40), UiAction::ResumeUpdatesLater]);
}

#[test]
fn volume_slider_text() {
    let (s, a) = ui_step(state(), UiEvent::SetVolume("120".to_string()));
    assert_eq!(s.volume, 120);
    assert_eq!(a, vec![UiAction::SetVol(120), UiAction::ResumeUpdatesLater]);
    let (s, a) = ui_step(state(), UiEvent::SetVolumeInput("loud".to_string()));
    assert_eq!(s.volume, 80);
    assert_eq!(a, vec![UiAction::ResumeUpdatesLater]);
    let (s, _) = ui_step(s, UiEvent::ResumeUpdates);
    assert!(!s.stop_updates);
}

#[test]
fn dialogs_open_and_close() {
    let (s, a) = ui_step(state(), UiEvent::ToggleLyrics);
    assert!(s.lyrics_modal_open);
    assert_eq!(a, vec![UiAction::FetchLyrics]);
    let (s, _) = ui_step(s, UiEvent::ToggleKeyboardShortcutsHelp);
    let (s, _) = ui_step(s, UiEvent::ToggleWelcomeModal);
    assert!(s.show_keyboard_shortcuts && s.show_welcome_modal);
    let (s, a) = ui_step(s, UiEvent::CloseModals);
    assert!(!s.show_keyboard_shortcuts && !s.show_welcome_modal && !s.lyrics_modal_open);
    assert!(a.is_empty());
    let (s, a) = ui_step(UiState { show_welcome_modal: true, ..s }, UiEvent::DismissWelcomeModal);
    assert!(!s.show_welcome_modal);
    assert_eq!(a, vec![UiAction::MarkVisited]);
}

#[test]
fn cancelled_navigation_skips_its_address_change() {
    let (s, a) = ui_step(state(), UiEvent::UrlChanged { unsaved_changes: true, page: PageKind::Player });
    assert_eq!(a, vec![UiAction::ConfirmLeave(PageKind::Player)]);
    let (s, a) = ui_step(s, UiEvent::LeaveAnswered { confirmed: false, page: PageKind::Player });
    assert!(s.skip_next_url_change);
    assert_eq!(a, vec![UiAction::HistoryBack]);
    let (s, a) = ui_step(s, UiEvent::UrlChanged { unsaved_changes: true, page: PageKind::Other });
    assert!(!s.skip_next_url_change);
    assert!(a.is_empty());
    let (s, a) = ui_step(s, UiEvent::UrlChanged { unsaved_changes: false, page: PageKind::Player });
    assert_eq!(a, vec![UiAction::ShowPage(PageKind::Player), UiAction::InitVuMeter]);
    assert!(!s.library_nav_open);
}

#[test]
fn visualizer_cycles_back_to_off() {
    let (s, a) = ui_step(state(), UiEvent::ToggleVisualizer);
    assert_eq!(s.visualizer, Visualizer::Off);
    assert_eq!(a, vec![UiAction::SaveVisualizer(Visualizer::Off), UiAction::StartVisualizer(Visualizer::Off)]);
    let (s, _) = ui_step(s, UiEvent::ToggleVisualizer);
    assert_eq!(s.visualizer, Visualizer::NeonBar);
}

#[test]
fn settings_decide_whether_playback_is_configured() {
    let ev = UiEvent::SettingsFetched {
        local_browser_playback: false,
        card_id_empty: false,
        device_name_empty: false,
        ring_buffer_ms: 300,
    };
    let (s, a) = ui_step(state(), ev);
    assert!(s.playback_configured);
    assert_eq!(s.ring_buffer_ms, 300);
    assert!(a.is_empty());
    let ev = UiEvent::SettingsFetched {
        local_browser_playback: false,
        card_id_empty: true,
        device_name_empty: false,
        ring_buffer_ms: 300,
    };
    assert!(!ui_step(state(), ev).0.playback_configured);
    let ev = UiEvent::SettingsFetched {
        local_browser_playback: true,
        card_id_empty: true,
        device_name_empty: true,
        ring_buffer_ms: 300,
    };
    let (s, a) = ui_step(state(), ev);
    assert!(s.playback_configured);
    assert_eq!(s.ring_buffer_ms, 0);
    assert_eq!(a, vec![UiAction::SetupMediaSession]);
}

#[test]
fn play_pause_and_browser_controls() {
    assert_eq!(ui_step(state(), UiEvent::TogglePlayPause).1, vec![UiAction::Play]);
    let playing = ui_step(state(), UiEvent::PlaybackStateChanged(ReportedState::Playing)).0;
    assert_eq!(ui_step(playing, UiEvent::TogglePlayPause).1, vec![UiAction::Pause]);
    assert!(ui_step(state(), UiEvent::MediaNextTrack).1.is_empty());
    let local = UiState { local_browser_playback: true, ..state() };
    assert_eq!(ui_step(local, UiEvent::BrowserAudioEnded).1, vec![UiAction::Next]);
    assert_eq!(ui_step(local, UiEvent::MediaPrevTrack).1, vec![UiAction::Previous]);
    assert!(ui_step(local, UiEvent::BrowserAudioPlaying).0.playing);
}

#[test]
fn server_volume_reports_update_the_state() {
    let (s, a) = ui_step(state(), UiEvent::VolumeChanged { current: 40, max: 100 });
    assert_eq!((s.volume, s.max_volume), (40, 100));
    assert!(a.is_empty());
    // the same volume again changes nothing, the maximum included
    let (s2, a) = ui_step(s, UiEvent::VolumeChanged { current: 40, max: 255 });
    assert_eq!(s2, s);
    assert!(a.is_empty());
    let local = UiState { local_browser_playback: true, ..state() };
    assert_eq!(ui_step(local, UiEvent::VolumeChanged { current: 10, max: 255 }).1, vec![UiAction::SetAudioVolume(10)]);
}

#[test]
fn mute_then_unmute_through_the_server_restores_the_volume() {
    let (s, a) = ui_step(state(), UiEvent::ToggleMute);
    assert_eq!(a, vec![UiAction::SetVol(0)]);
    let (s, _) = ui_step(s, UiEvent::VolumeChanged { current: 0, max: 255 });
    let (s, a) = ui_step(s, UiEvent::ToggleMute);
    assert_eq!(a, vec![UiAction::SetVol(80)]);
    assert_eq!(s.pre_mute_volume, None);
}

#[test]
fn visualizer_toggle_returns_after_thirteen_presses() {
    let mut s = state();
    let start = s.visualizer;
    for press in 1..=13 {
        s = ui_step(s, UiEvent::ToggleVisualizer).0;
        if press < 13 {
            assert_ne!(s.visualizer, start);
        }
    }
    assert_eq!(s.visualizer, start);
}

#[test]
fn server_player_state_drives_the_browser_audio_and_the_meter() {
    let (s, a) = ui_step(state(), UiEvent::PlaybackStateChanged(ReportedState::Playing));
    assert!(s.playing);
    assert!(a.is_empty());
    let (s, a) = ui_step(s, UiEvent::PlaybackStateChanged(ReportedState::Paused));
    assert!(!s.playing);
    assert_eq!(a, vec![UiAction::ResetVuMeter]);
    let local = UiState { local_browser_playback: true, ..state() };
    assert_eq!(ui_step(local, UiEvent::PlaybackStateChanged(ReportedState::Playing)).1, vec![UiAction::PlayAudio]);
    assert_eq!(
        ui_step(local, UiEvent::PlaybackStateChanged(ReportedState::Stopped)).1,
        vec![UiAction::PauseAudio, UiAction::ResetVuMeter]
    );
    assert_eq!(ui_step(local, UiEvent::PlaybackStateChanged(ReportedState::Failed)).1, vec![UiAction::ResetVuMeter]);
}

#[test]
fn song_time_and_levels_wait_while_a_slider_moves() {
    let (s, _) = ui_step(state(), UiEvent::SongTimeReported { current_secs: 61, total_secs: 180 });
    assert_eq!((s.current_secs, s.total_secs, s.playing), (61, 180, true));
    let held = UiState { stop_updates: true, ..state() };
    assert_eq!(ui_step(held, UiEvent::SongTimeReported { current_secs: 61, total_secs: 180 }).0, held);
    assert!(ui_step(held, UiEvent::VuLevels { left: 3, right: 4 }).1.is_empty());
    assert_eq!(ui_step(state(), UiEvent::VuLevels { left: 3, right: 4 }).1, vec![UiAction::UpdateVuMeter(3, 4)]);
    // in browser playback the browser's audio gives the time, when it has one
    let local = UiState { local_browser_playback: true, ..state() };
    assert_eq!(ui_step(local, UiEvent::SongTimeReported { current_secs: 61, total_secs: 180 }).0, local);
    let (s, _) = ui_step(local, UiEvent::BrowserAudioTime { time_secs: Some(12), duration_secs: None });
    assert_eq!((s.current_secs, s.total_secs, s.playing), (12, 200, true));
}

#[test]
fn level_meter_follows_the_setting_and_the_page() {
    let (s, a) = ui_step(UiState { vu_meter_enabled: false, ..state() }, UiEvent::VuMeterEnabled(true));
    assert!(s.vu_meter_enabled);
    assert_eq!(a, vec![UiAction::InitVuMeter]);
    let (s, _) = ui_step(s, UiEvent::UrlChanged { unsaved_changes: false, page: PageKind::Library });
    assert_eq!(s.page, PageKind::Library);
    assert_eq!(ui_step(s, UiEvent::VuMeterEnabled(true)).1, vec![UiAction::DropVuMeter]);
}

#[test]
fn lost_socket_is_reconnected_once() {
    let (s, a) = ui_step(state(), UiEvent::WebSocketClosed { clean: false });
    assert!(s.reconnecting);
    assert_eq!(a, vec![UiAction::ShowReconnectInfo, UiAction::StartReconnect(2000)]);
    assert!(ui_step(s, UiEvent::WebSocketFailed).1.is_empty());
    assert!(ui_step(state(), UiEvent::WebSocketClosed { clean: true }).1.is_empty());
    assert_eq!(
        ui_step(state(), UiEvent::WebSocketFailed).1,
        vec![UiAction::ShowReconnectInfo, UiAction::StartReconnect(1000)]
    );
    let (s, a) = ui_step(s, UiEvent::WebSocketOpened);
    assert!(!s.reconnecting);
    assert_eq!(
        a,
        vec![
            UiAction::StopReconnect,
            UiAction::QueryCurrentSong,
            UiAction::QueryPlayerInfo,
            UiAction::QueryVolume,
            UiAction::NotifyPageConnected,
        ]
    );
}

#[test]
fn liking_follows_the_current_song() {
    assert_eq!(ui_step(state(), UiEvent::ToggleLike).1, vec![UiAction::Like]);
    let liked = UiState { current_liked: true, ..state() };
    assert_eq!(ui_step(liked, UiEvent::ToggleLike).1, vec![UiAction::Dislike]);
    assert!(ui_step(UiState { has_current_song: false, ..state() }, UiEvent::ToggleLike).1.is_empty());
    let (s, a) = ui_step(state(), UiEvent::LikeClicked(true));
    assert!(s.current_liked);
    assert_eq!(a, vec![UiAction::Like]);
    // without a current song the click is still sent, and nothing is marked
    let none = UiState { has_current_song: false, ..state() };
    let (s, a) = ui_step(none, UiEvent::LikeClicked(true));
    assert!(!s.current_liked);
    assert_eq!(a, vec![UiAction::Like]);
}

#[test]
fn a_new_current_song_resets_its_lyrics_and_fetches_its_cover() {
    let with_lyrics = UiState { has_lyrics: true, has_current_song: false, ..state() };
    let (s, a) = ui_step(with_lyrics, UiEvent::CurrentSongChanged { liked: true, has_image: false });
    assert!(s.has_current_song && s.current_liked && !s.has_lyrics);
    assert_eq!(a, vec![UiAction::FetchAlbumCover]);
    let local = UiState { local_browser_playback: true, ..state() };
    assert_eq!(
        ui_step(local, UiEvent::CurrentSongChanged { liked: false, has_image: true }).1,
        vec![UiAction::UpdateMediaSession]
    );
}
