use vstd::prelude::*;

use crate::text::{chars_equal, decimal, lemma_parse_decimal, parse_u64_chars, parse_unsigned, to_chars};

verus! {

// ------------------------------------------------------------------------
// Keyboard shortcuts
// ------------------------------------------------------------------------

/// The tabs of the web interface.
#[derive(Debug, Clone, Copy, PartialEq, Eq, Structural)]
pub enum Tab {
    Player,
    Queue,
    Library,
    Settings,
    LibraryFiles,
    LibraryArtists,
    LibraryPlaylists,
    LibraryRadio,
    LibraryStats,
}

/// What a key press asks the web interface to do.
#[derive(Debug, Clone, Copy, PartialEq, Eq, Structural)]
pub enum Shortcut {
    Ignore,
    ToggleShortcutsHelp,
    FocusSearch,
    CloseModals,
    TogglePlayPause,
    Previous,
    Next,
    SeekBackward,
    SeekForward,
    VolumeUp,
    VolumeDown,
    ToggleMute,
    ToggleLike,
    ToggleVisualizer,
    ToggleLyrics,
    CycleShuffleMode,
    NavigateTo(Tab),
}

/// The shortcut of a key press: none while an input field has focus; the
/// space bar only when it is not held down; the arrows left and right seek
/// with shift and change song without; letters in either case.
pub open spec fn shortcut_spec(key: Seq<char>, is_input: bool, repeat: bool, shift: bool) -> Shortcut {
    if is_input {
        Shortcut::Ignore
    } else if key == "?"@ {
        Shortcut::ToggleShortcutsHelp
    } else if key == "/"@ {
        Shortcut::FocusSearch
    } else if key == "Escape"@ {
        Shortcut::CloseModals
    } else if key == " "@ {
        if !repeat {
            Shortcut::TogglePlayPause
        } else {
            Shortcut::Ignore
        }
    } else if key == "ArrowLeft"@ {
        if shift {
            Shortcut::SeekBackward
        } else {
            Shortcut::Previous
        }
    } else if key == "ArrowRight"@ {
        if shift {
            Shortcut::SeekForward
        } else {
            Shortcut::Next
        }
    } else if key == "ArrowUp"@ {
        Shortcut::VolumeUp
    } else if key == "ArrowDown"@ {
        Shortcut::VolumeDown
    } else if key == "m"@ || key == "M"@ {
        Shortcut::ToggleMute
    } else if key == "l"@ || key == "L"@ {
        Shortcut::ToggleLike
    } else if key == "v"@ || key == "V"@ {
        Shortcut::ToggleVisualizer
    } else if key == "y"@ || key == "Y"@ {
        Shortcut::ToggleLyrics
    } else if key == "s"@ || key == "S"@ {
        Shortcut::CycleShuffleMode
    } else if key == "1"@ {
        Shortcut::NavigateTo(Tab::Player)
    } else if key == "2"@ {
        Shortcut::NavigateTo(Tab::Queue)
    } else if key == "3"@ {
        Shortcut::NavigateTo(Tab::Library)
    } else if key == "4"@ {
        Shortcut::NavigateTo(Tab::Settings)
    } else if key == "f"@ || key == "F"@ {
        Shortcut::NavigateTo(Tab::LibraryFiles)
    } else if key == "a"@ || key == "A"@ {
        Shortcut::NavigateTo(Tab::LibraryArtists)
    } else if key == "p"@ || key == "P"@ {
        Shortcut::NavigateTo(Tab::LibraryPlaylists)
    } else if key == "r"@ || key == "R"@ {
        Shortcut::NavigateTo(Tab::LibraryRadio)
    } else if key == "t"@ || key == "T"@ {
        Shortcut::NavigateTo(Tab::LibraryStats)
    } else {
        Shortcut::Ignore
    }
}

/// Whether the key is `lit`.
fn is_key(key: &Vec<char>, lit: &str) -> (r: bool)
    ensures
        r == (key@ == lit@),
{
    chars_equal(key, &to_chars(lit))
}

/// The shortcut of a key press (see `shortcut_spec`).
pub fn shortcut_for(key: &str, is_input: bool, repeat: bool, shift: bool) -> (r: Shortcut)
    ensures
        r == shortcut_spec(key@, is_input, repeat, shift),
{
    if is_input {
        return Shortcut::Ignore;
    }
    let k = to_chars(key);
    if is_key(&k, "?") {
        Shortcut::ToggleShortcutsHelp
    } else if is_key(&k, "/") {
        Shortcut::FocusSearch
    } else if is_key(&k, "Escape") {
        Shortcut::CloseModals
    } else if is_key(&k, " ") {
        if !repeat {
            Shortcut::TogglePlayPause
        } else {
            Shortcut::Ignore
        }
    } else if is_key(&k, "ArrowLeft") {
        if shift {
            Shortcut::SeekBackward
        } else {
            Shortcut::Previous
        }
    } else if is_key(&k, "ArrowRight") {
        if shift {
            Shortcut::SeekForward
        } else {
            Shortcut::Next
        }
    } else if is_key(&k, "ArrowUp") {
        Shortcut::VolumeUp
    } else if is_key(&k, "ArrowDown") {
        Shortcut::VolumeDown
    } else if is_key(&k, "m") || is_key(&k, "M") {
        Shortcut::ToggleMute
    } else if is_key(&k, "l") || is_key(&k, "L") {
        Shortcut::ToggleLike
    } else if is_key(&k, "v") || is_key(&k, "V") {
        Shortcut::ToggleVisualizer
    } else if is_key(&k, "y") || is_key(&k, "Y") {
        Shortcut::ToggleLyrics
    } else if is_key(&k, "s") || is_key(&k, "S") {
        Shortcut::CycleShuffleMode
    } else if is_key(&k, "1") {
        Shortcut::NavigateTo(Tab::Player)
    } else if is_key(&k, "2") {
        Shortcut::NavigateTo(Tab::Queue)
    } else if is_key(&k, "3") {
        Shortcut::NavigateTo(Tab::Library)
    } else if is_key(&k, "4") {
        Shortcut::NavigateTo(Tab::Settings)
    } else if is_key(&k, "f") || is_key(&k, "F") {
        Shortcut::NavigateTo(Tab::LibraryFiles)
    } else if is_key(&k, "a") || is_key(&k, "A") {
        Shortcut::NavigateTo(Tab::LibraryArtists)
    } else if is_key(&k, "p") || is_key(&k, "P") {
        Shortcut::NavigateTo(Tab::LibraryPlaylists)
    } else if is_key(&k, "r") || is_key(&k, "R") {
        Shortcut::NavigateTo(Tab::LibraryRadio)
    } else if is_key(&k, "t") || is_key(&k, "T") {
        Shortcut::NavigateTo(Tab::LibraryStats)
    } else {
        Shortcut::Ignore
    }
}

/// A shortcut that is taken keeps the browser from acting on the key too,
/// except Escape, which the browser may still use.
pub open spec fn prevents_default_spec(s: Shortcut) -> bool {
    !(s is Ignore) && !(s is CloseModals)
}

/// Whether the key press is kept from the browser (see `prevents_default_spec`).
pub fn prevents_default(s: Shortcut) -> (r: bool)
    ensures
        r == prevents_default_spec(s),
{
    match s {
        Shortcut::Ignore => false,
        Shortcut::CloseModals => false,
        _ => true,
    }
}

// ------------------------------------------------------------------------
// The web interface's state machine
// ------------------------------------------------------------------------

/// The kinds of visualizer, in the order the toggle cycles through them.
#[derive(Debug, Clone, Copy, PartialEq, Eq, Structural)]
pub enum Visualizer {
    Off,
    NeonBar,
    Spectrum,
    Wave,
    Circular,
    Lissajous,
    Particles,
    Mirror,
    Starfield,
    Dna,
    Plasma,
    Tunnel,
    Bounce,
}

/// The visualizer after `v` in the cycle (after the last comes none).
pub open spec fn next_visualizer(v: Visualizer) -> Visualizer {
    match v {
        Visualizer::Off => Visualizer::NeonBar,
        Visualizer::NeonBar => Visualizer::Spectrum,
        Visualizer::Spectrum => Visualizer::Wave,
        Visualizer::Wave => Visualizer::Circular,
        Visualizer::Circular => Visualizer::Lissajous,
        Visualizer::Lissajous => Visualizer::Particles,
        Visualizer::Particles => Visualizer::Mirror,
        Visualizer::Mirror => Visualizer::Starfield,
        Visualizer::Starfield => Visualizer::Dna,
        Visualizer::Dna => Visualizer::Plasma,
        Visualizer::Plasma => Visualizer::Tunnel,
        Visualizer::Tunnel => Visualizer::Bounce,
        Visualizer::Bounce => Visualizer::Off,
    }
}

fn cycle_visualizer(v: Visualizer) -> (r: Visualizer)
    ensures
        r == next_visualizer(v),
{
    match v {
        Visualizer::Off => Visualizer::NeonBar,
        Visualizer::NeonBar => Visualizer::Spectrum,
        Visualizer::Spectrum => Visualizer::Wave,
        Visualizer::Wave => Visualizer::Circular,
        Visualizer::Circular => Visualizer::Lissajous,
        Visualizer::Lissajous => Visualizer::Particles,
        Visualizer::Particles => Visualizer::Mirror,
        Visualizer::Mirror => Visualizer::Starfield,
        Visualizer::Starfield => Visualizer::Dna,
        Visualizer::Dna => Visualizer::Plasma,
        Visualizer::Plasma => Visualizer::Tunnel,
        Visualizer::Tunnel => Visualizer::Bounce,
        Visualizer::Bounce => Visualizer::Off,
    }
}

/// Where an address change leads.
#[derive(Debug, Clone, Copy, PartialEq, Eq, Structural)]
pub enum PageKind {
    Player,
    Library,
    Other,
}

/// What the web interface's decisions depend on.
#[derive(Debug, Clone, Copy, PartialEq, Eq, Structural)]
pub struct UiState {
    pub volume: u8,
    pub max_volume: u8,
    /// The volume before muting, to restore on unmuting.
    pub pre_mute_volume: Option<u8>,
    pub current_secs: u64,
    pub total_secs: u64,
    /// Progress and volume updates from the server are held back for a moment
    /// after the user moved a slider.
    pub stop_updates: bool,
    pub playing: bool,
    /// The browser plays the audio itself.
    pub local_browser_playback: bool,
    /// A playback device is set up (or the browser plays).
    pub playback_configured: bool,
    pub ring_buffer_ms: usize,
    pub show_welcome_modal: bool,
    pub show_keyboard_shortcuts: bool,
    pub lyrics_modal_open: bool,
    pub library_nav_open: bool,
    pub has_lyrics: bool,
    pub has_current_song: bool,
    /// The current song is liked.
    pub current_liked: bool,
    /// The next address change is the one a cancelled navigation caused.
    pub skip_next_url_change: bool,
    pub visualizer: Visualizer,
    pub vu_meter_enabled: bool,
    /// The page shown.
    pub page: PageKind,
    /// Reconnecting to the server's event socket is under way.
    pub reconnecting: bool,
}

/// The player state that the server reports.
#[derive(Debug, Clone, Copy, PartialEq, Eq, Structural)]
pub enum ReportedState {
    Playing,
    Paused,
    Stopped,
    Failed,
}

/// What happens to the web interface.
pub enum UiEvent {
    /// The settings arrived: whether the browser plays, whether the device's
    /// card and name are empty, and the ring buffer size.
    SettingsFetched { local_browser_playback: bool, card_id_empty: bool, device_name_empty: bool, ring_buffer_ms: usize },
    /// The address changed; whether the page left has changes not applied.
    UrlChanged { unsaved_changes: bool, page: PageKind },
    /// The user answered whether to leave a page with changes not applied.
    LeaveAnswered { confirmed: bool, page: PageKind },
    SeekTo(u16),
    SeekInput(u16),
    ResumeUpdates,
    SetVolume(String),
    SetVolumeInput(String),
    /// The server reports the volume and its maximum.
    VolumeChanged { current: u8, max: u8 },
    ToggleMute,
    SeekBackward,
    SeekForward,
    ToggleVisualizer,
    ToggleLyrics,
    LyricsFetched { found: bool },
    ToggleLibraryNav,
    ToggleWelcomeModal,
    DismissWelcomeModal,
    ToggleKeyboardShortcutsHelp,
    CloseModals,
    TogglePlayPause,
    /// The server reports the player state.
    PlaybackStateChanged(ReportedState),
    /// The server reports a new current song: whether it is liked and
    /// whether it has a cover image.
    CurrentSongChanged { liked: bool, has_image: bool },
    /// The like key was pressed.
    ToggleLike,
    /// The heart of a song was clicked: to like it, or to take the like back.
    LikeClicked(bool),
    /// The server reports the song time.
    SongTimeReported { current_secs: u64, total_secs: u64 },
    /// The browser's own audio reports its time, where it has one.
    BrowserAudioTime { time_secs: Option<u64>, duration_secs: Option<u64> },
    /// The server reports the levels of the left and right channels.
    VuLevels { left: u8, right: u8 },
    /// The server reports whether the level meter is on.
    VuMeterEnabled(bool),
    WebSocketOpened,
    /// The event socket closed, cleanly or not.
    WebSocketClosed { clean: bool },
    WebSocketFailed,
    MediaNextTrack,
    MediaPrevTrack,
    BrowserAudioEnded,
    BrowserAudioPaused,
    BrowserAudioPlaying,
}

/// What the web interface does in answer.
#[derive(Debug, Clone, Copy, PartialEq, Eq, Structural)]
pub enum UiAction {
    SetVol(u8),
    Seek(u16),
    /// Move the browser's own audio to this second.
    SetAudioTime(u16),
    /// Set the browser's own audio volume to this share of the maximum.
    SetAudioVolume(u8),
    /// Let server updates through again after a moment.
    ResumeUpdatesLater,
    SaveVisualizer(Visualizer),
    StartVisualizer(Visualizer),
    FetchLyrics,
    MarkVisited,
    /// Ask the user whether to leave for the page.
    ConfirmLeave(PageKind),
    HistoryBack,
    ShowPage(PageKind),
    InitVuMeter,
    DropVuMeter,
    SetupMediaSession,
    Play,
    Pause,
    Next,
    Previous,
    /// Start or pause the browser's own audio.
    PlayAudio,
    PauseAudio,
    /// Show the meter at rest, or at these levels.
    ResetVuMeter,
    UpdateVuMeter(u8, u8),
    QueryCurrentSong,
    QueryPlayerInfo,
    QueryVolume,
    /// Let the page shown know that the socket is open.
    NotifyPageConnected,
    ShowReconnectInfo,
    /// Try to reconnect every so many milliseconds, until told to stop.
    StartReconnect(u32),
    StopReconnect,
    /// Look the current song's cover up.
    FetchAlbumCover,
    /// Tell the browser's media session about the current song.
    UpdateMediaSession,
    /// Like the current song, or take the like back.
    Like,
    Dislike,
}

/// The volume that a slider's text gives: the `u8` it holds, else the
/// current volume.
pub open spec fn slider_volume(text: Seq<char>, current: u8) -> u8 {
    match parse_unsigned(text, u8::MAX as int) {
        Some(v) => v as u8,
        None => current,
    }
}

/// Seeking to `pos`.
pub open spec fn seek_next(s: UiState, pos: u16) -> (UiState, Seq<UiAction>) {
    (
        UiState { stop_updates: true, current_secs: pos as u64, ..s },
        (if s.local_browser_playback { seq![UiAction::SetAudioTime(pos)] } else { seq![] }) + seq![
            UiAction::Seek(pos),
            UiAction::ResumeUpdatesLater,
        ],
    )
}

/// Going to a page: the library menu stays open only within the library,
/// and the level meter runs only on the player page.
pub open spec fn navigate_next(s: UiState, page: PageKind) -> (UiState, Seq<UiAction>) {
    (
        UiState { library_nav_open: s.library_nav_open && page == PageKind::Library, page, ..s },
        seq![
            UiAction::ShowPage(page),
            if page == PageKind::Player && s.vu_meter_enabled { UiAction::InitVuMeter } else { UiAction::DropVuMeter },
        ],
    )
}

/// Opening or closing the lyrics; lyrics not yet there are fetched for the
/// current song on opening.
pub open spec fn toggle_lyrics_next(s: UiState) -> (UiState, Seq<UiAction>) {
    let open = !s.lyrics_modal_open;
    (
        UiState { lyrics_modal_open: open, ..s },
        if open && !s.has_lyrics && s.has_current_song { seq![UiAction::FetchLyrics] } else { seq![] },
    )
}

/// The settings arrived: the browser plays or not, playback counts as set up when the browser plays or a device card and name are set, and the browser keeps no ring buffer.
pub open spec fn next_settings_fetched(s: UiState, local_browser_playback: bool, card_id_empty: bool, device_name_empty: bool, ring_buffer_ms: usize) -> (UiState, Seq<UiAction>) {
    (
        UiState {
            local_browser_playback,
            ring_buffer_ms: if local_browser_playback { 0 } else { ring_buffer_ms },
            playback_configured: local_browser_playback || (!card_id_empty && !device_name_empty),
            ..s
        },
        if local_browser_playback { seq![UiAction::SetupMediaSession] } else { seq![] },
    )
}

/// The address changed: the change a cancelled navigation caused passes once; leaving a page with changes not applied is asked about first.
pub open spec fn next_url_changed(s: UiState, unsaved_changes: bool, page: PageKind) -> (UiState, Seq<UiAction>) {
    if s.skip_next_url_change {
        (UiState { skip_next_url_change: false, ..s }, seq![])
    } else if unsaved_changes {
        (s, seq![UiAction::ConfirmLeave(page)])
    } else {
        navigate_next(s, page)
    }
}

/// The answer to leaving a page with changes not applied: go, or step the browser back.
pub open spec fn next_leave_answered(s: UiState, confirmed: bool, page: PageKind) -> (UiState, Seq<UiAction>) {
    if confirmed {
        navigate_next(s, page)
    } else {
        (UiState { skip_next_url_change: true, ..s }, seq![UiAction::HistoryBack])
    }
}

/// The position slider was let go.
pub open spec fn next_seek_to(s: UiState, pos: u16) -> (UiState, Seq<UiAction>) {
    seek_next(s, pos)
}

/// The position slider moves: the shown time follows, and server updates wait.
pub open spec fn next_seek_input(s: UiState, pos: u16) -> (UiState, Seq<UiAction>) {
    (UiState { stop_updates: true, current_secs: pos as u64, ..s }, seq![])
}

/// Server updates come through again.
pub open spec fn next_resume_updates(s: UiState) -> (UiState, Seq<UiAction>) {
    (UiState { stop_updates: false, ..s }, seq![])
}

/// The volume slider was let go.
pub open spec fn next_set_volume(s: UiState, text: String) -> (UiState, Seq<UiAction>) {
    {
        let v = slider_volume(text@, s.volume);
        (
            UiState { stop_updates: true, volume: v, ..s },
            (if s.local_browser_playback { seq![UiAction::SetAudioVolume(v)] } else { seq![] }) + seq![
                UiAction::SetVol(v),
                UiAction::ResumeUpdatesLater,
            ],
        )
    }
}

/// The volume slider moves.
pub open spec fn next_set_volume_input(s: UiState, text: String) -> (UiState, Seq<UiAction>) {
    {
        let v = slider_volume(text@, s.volume);
        (
            UiState { stop_updates: true, volume: v, ..s },
            (if s.local_browser_playback { seq![UiAction::SetAudioVolume(v)] } else { seq![] }) + seq![
                UiAction::ResumeUpdatesLater,
            ],
        )
    }
}

/// The server reports the volume; a new level is taken over with its maximum.
pub open spec fn next_volume_changed(s: UiState, current: u8, max: u8) -> (UiState, Seq<UiAction>) {
    if current != s.volume {
        (
            UiState { volume: current, max_volume: max, ..s },
            if s.local_browser_playback { seq![UiAction::SetAudioVolume(current)] } else { seq![] },
        )
    } else {
        (s, seq![])
    }
}

/// Mute or unmute: muting remembers the volume, unmuting asks for it back (or for half the maximum when none is remembered).
pub open spec fn next_toggle_mute(s: UiState) -> (UiState, Seq<UiAction>) {
    if s.volume == 0 {
        (
            UiState { pre_mute_volume: None, ..s },
            seq![
                UiAction::SetVol(
                    match s.pre_mute_volume {
                        Some(v) => v,
                        None => (s.max_volume / 2) as u8,
                    },
                ),
            ],
        )
    } else {
        (UiState { pre_mute_volume: Some(s.volume), ..s }, seq![UiAction::SetVol(0)])
    }
}

/// Ten seconds back, not before the start.
pub open spec fn next_seek_backward(s: UiState) -> (UiState, Seq<UiAction>) {
    seek_next(
        s,
        ((if s.current_secs >= 10 { s.current_secs - 10 } else { 0 }) % 0x1_0000) as u16,
    )
}

/// Ten seconds on, not past the end.
pub open spec fn next_seek_forward(s: UiState) -> (UiState, Seq<UiAction>) {
    seek_next(
        s,
        ((if s.current_secs + 10 <= s.total_secs { s.current_secs + 10 } else { s.total_secs as int })
            % 0x1_0000) as u16,
    )
}

/// The next visualizer, saved and started.
pub open spec fn next_toggle_visualizer(s: UiState) -> (UiState, Seq<UiAction>) {
    {
        let v = next_visualizer(s.visualizer);
        (UiState { visualizer: v, ..s }, seq![UiAction::SaveVisualizer(v), UiAction::StartVisualizer(v)])
    }
}

/// Open or close the lyrics.
pub open spec fn next_toggle_lyrics(s: UiState) -> (UiState, Seq<UiAction>) {
    toggle_lyrics_next(s)
}

/// Lyrics arrived, or none were found.
pub open spec fn next_lyrics_fetched(s: UiState, found: bool) -> (UiState, Seq<UiAction>) {
    (UiState { has_lyrics: found, ..s }, seq![])
}

/// Open or close the library menu.
pub open spec fn next_toggle_library_nav(s: UiState) -> (UiState, Seq<UiAction>) {
    (UiState { library_nav_open: !s.library_nav_open, ..s }, seq![])
}

/// Open or close the welcome dialog.
pub open spec fn next_toggle_welcome_modal(s: UiState) -> (UiState, Seq<UiAction>) {
    (UiState { show_welcome_modal: !s.show_welcome_modal, ..s }, seq![])
}

/// Close the welcome dialog for good.
pub open spec fn next_dismiss_welcome_modal(s: UiState) -> (UiState, Seq<UiAction>) {
    (UiState { show_welcome_modal: false, ..s }, seq![UiAction::MarkVisited])
}

/// Open or close the keyboard help.
pub open spec fn next_toggle_keyboard_shortcuts_help(s: UiState) -> (UiState, Seq<UiAction>) {
    (
        UiState { show_keyboard_shortcuts: !s.show_keyboard_shortcuts, ..s },
        seq![],
    )
}

/// Close every dialog.
pub open spec fn next_close_modals(s: UiState) -> (UiState, Seq<UiAction>) {
    (
        UiState { show_keyboard_shortcuts: false, show_welcome_modal: false, lyrics_modal_open: false, ..s },
        seq![],
    )
}

/// Pause when playing, play otherwise.
pub open spec fn next_toggle_play_pause(s: UiState) -> (UiState, Seq<UiAction>) {
    (s, if s.playing { seq![UiAction::Pause] } else { seq![UiAction::Play] })
}

/// The server reports the player state: the browser's own audio follows it, and the meter rests when nothing plays.
pub open spec fn next_playback_state_changed(s: UiState, r: ReportedState) -> (UiState, Seq<UiAction>) {
    (
        UiState { playing: r == ReportedState::Playing, ..s },
        (if !s.local_browser_playback {
            seq![]
        } else if r == ReportedState::Playing {
            seq![UiAction::PlayAudio]
        } else if r == ReportedState::Failed {
            seq![]
        } else {
            seq![UiAction::PauseAudio]
        }) + if r != ReportedState::Playing { seq![UiAction::ResetVuMeter] } else { seq![] },
    )
}

/// A new current song: its like is taken over, its lyrics are not yet there, its cover is looked up when it has none, and the browser's media session hears of it when the browser plays.
pub open spec fn next_current_song_changed(s: UiState, liked: bool, has_image: bool) -> (UiState, Seq<UiAction>) {
    (
        UiState { has_current_song: true, current_liked: liked, has_lyrics: false, ..s },
        (if has_image { seq![] } else { seq![UiAction::FetchAlbumCover] }) + if s.local_browser_playback {
            seq![UiAction::UpdateMediaSession]
        } else {
            seq![]
        },
    )
}

/// Like the current song, or take its like back.
pub open spec fn next_toggle_like(s: UiState) -> (UiState, Seq<UiAction>) {
    (
        s,
        if !s.has_current_song {
            seq![]
        } else if s.current_liked {
            seq![UiAction::Dislike]
        } else {
            seq![UiAction::Like]
        },
    )
}

/// A heart was clicked: the current song's like follows.
pub open spec fn next_like_clicked(s: UiState, like: bool) -> (UiState, Seq<UiAction>) {
    (
        UiState { current_liked: if s.has_current_song { like } else { s.current_liked }, ..s },
        seq![if like { UiAction::Like } else { UiAction::Dislike }],
    )
}

/// The server's song time, unless updates wait or the browser plays.
pub open spec fn next_song_time_reported(s: UiState, current_secs: u64, total_secs: u64) -> (UiState, Seq<UiAction>) {
    if s.local_browser_playback || s.stop_updates {
        (s, seq![])
    } else {
        (UiState { current_secs, total_secs, playing: true, ..s }, seq![])
    }
}

/// The browser's own audio time, when the browser plays and updates do not wait.
pub open spec fn next_browser_audio_time(s: UiState, time_secs: Option<u64>, duration_secs: Option<u64>) -> (UiState, Seq<UiAction>) {
    if s.stop_updates || !s.local_browser_playback {
        (s, seq![])
    } else {
        (
            UiState {
                current_secs: match time_secs {
                    Some(c) => c,
                    None => s.current_secs,
                },
                total_secs: match duration_secs {
                    Some(t) => t,
                    None => s.total_secs,
                },
                playing: true,
                ..s
            },
            seq![],
        )
    }
}

/// Meter levels, unless updates wait.
pub open spec fn next_vu_levels(s: UiState, left: u8, right: u8) -> (UiState, Seq<UiAction>) {
    (s, if s.stop_updates { seq![] } else { seq![UiAction::UpdateVuMeter(left, right)] })
}

/// The meter is switched on or off; it runs on the player page only.
pub open spec fn next_vu_meter_enabled(s: UiState, enabled: bool) -> (UiState, Seq<UiAction>) {
    (
        UiState { vu_meter_enabled: enabled, ..s },
        if enabled && s.page == PageKind::Player { seq![UiAction::InitVuMeter] } else { seq![UiAction::DropVuMeter] },
    )
}

/// The event socket is open: reconnecting stops, and the current state is asked for.
pub open spec fn next_web_socket_opened(s: UiState) -> (UiState, Seq<UiAction>) {
    (
        UiState { reconnecting: false, ..s },
        (if s.reconnecting { seq![UiAction::StopReconnect] } else { seq![] }) + seq![
            UiAction::QueryCurrentSong,
            UiAction::QueryPlayerInfo,
            UiAction::QueryVolume,
            UiAction::NotifyPageConnected,
        ],
    )
}

/// The event socket closed: when not cleanly, reconnecting starts every two seconds unless under way.
pub open spec fn next_web_socket_closed(s: UiState, clean: bool) -> (UiState, Seq<UiAction>) {
    if !clean && !s.reconnecting {
        (UiState { reconnecting: true, ..s }, seq![UiAction::ShowReconnectInfo, UiAction::StartReconnect(2000)])
    } else {
        (s, seq![])
    }
}

/// The event socket failed: reconnecting starts every second unless under way.
pub open spec fn next_web_socket_failed(s: UiState) -> (UiState, Seq<UiAction>) {
    if !s.reconnecting {
        (UiState { reconnecting: true, ..s }, seq![UiAction::ShowReconnectInfo, UiAction::StartReconnect(1000)])
    } else {
        (s, seq![])
    }
}

/// The media keys' next track, when the browser plays.
pub open spec fn next_media_next_track(s: UiState) -> (UiState, Seq<UiAction>) {
    (s, if s.local_browser_playback { seq![UiAction::Next] } else { seq![] })
}

/// The browser's own audio ended: on to the next song.
pub open spec fn next_browser_audio_ended(s: UiState) -> (UiState, Seq<UiAction>) {
    (s, if s.local_browser_playback { seq![UiAction::Next] } else { seq![] })
}

/// The media keys' previous track, when the browser plays.
pub open spec fn next_media_prev_track(s: UiState) -> (UiState, Seq<UiAction>) {
    (s, if s.local_browser_playback { seq![UiAction::Previous] } else { seq![] })
}

/// The browser's own audio paused.
pub open spec fn next_browser_audio_paused(s: UiState) -> (UiState, Seq<UiAction>) {
    (
        UiState { playing: if s.local_browser_playback { false } else { s.playing }, ..s },
        seq![],
    )
}

/// The browser's own audio plays.
pub open spec fn next_browser_audio_playing(s: UiState) -> (UiState, Seq<UiAction>) {
    (
        UiState { playing: if s.local_browser_playback { true } else { s.playing }, ..s },
        seq![],
    )
}

/// The web interface's next state and actions.
pub open spec fn ui_next(s: UiState, e: UiEvent) -> (UiState, Seq<UiAction>) {
    match e {
        UiEvent::SettingsFetched { local_browser_playback, card_id_empty, device_name_empty, ring_buffer_ms } => next_settings_fetched(s, local_browser_playback, card_id_empty, device_name_empty, ring_buffer_ms),
        UiEvent::UrlChanged { unsaved_changes, page } => next_url_changed(s, unsaved_changes, page),
        UiEvent::LeaveAnswered { confirmed, page } => next_leave_answered(s, confirmed, page),
        UiEvent::SeekTo(pos) => next_seek_to(s, pos),
        UiEvent::SeekInput(pos) => next_seek_input(s, pos),
        UiEvent::ResumeUpdates => next_resume_updates(s),
        UiEvent::SetVolume(text) => next_set_volume(s, text),
        UiEvent::SetVolumeInput(text) => next_set_volume_input(s, text),
        UiEvent::VolumeChanged { current, max } => next_volume_changed(s, current, max),
        UiEvent::ToggleMute => next_toggle_mute(s),
        UiEvent::SeekBackward => next_seek_backward(s),
        UiEvent::SeekForward => next_seek_forward(s),
        UiEvent::ToggleVisualizer => next_toggle_visualizer(s),
        UiEvent::ToggleLyrics => next_toggle_lyrics(s),
        UiEvent::LyricsFetched { found } => next_lyrics_fetched(s, found),
        UiEvent::ToggleLibraryNav => next_toggle_library_nav(s),
        UiEvent::ToggleWelcomeModal => next_toggle_welcome_modal(s),
        UiEvent::DismissWelcomeModal => next_dismiss_welcome_modal(s),
        UiEvent::ToggleKeyboardShortcutsHelp => next_toggle_keyboard_shortcuts_help(s),
        UiEvent::CloseModals => next_close_modals(s),
        UiEvent::TogglePlayPause => next_toggle_play_pause(s),
        UiEvent::PlaybackStateChanged(r) => next_playback_state_changed(s, r),
        UiEvent::CurrentSongChanged { liked, has_image } => next_current_song_changed(s, liked, has_image),
        UiEvent::ToggleLike => next_toggle_like(s),
        UiEvent::LikeClicked(like) => next_like_clicked(s, like),
        UiEvent::SongTimeReported { current_secs, total_secs } => next_song_time_reported(s, current_secs, total_secs),
        UiEvent::BrowserAudioTime { time_secs, duration_secs } => next_browser_audio_time(s, time_secs, duration_secs),
        UiEvent::VuLevels { left, right } => next_vu_levels(s, left, right),
        UiEvent::VuMeterEnabled(enabled) => next_vu_meter_enabled(s, enabled),
        UiEvent::WebSocketOpened => next_web_socket_opened(s),
        UiEvent::WebSocketClosed { clean } => next_web_socket_closed(s, clean),
        UiEvent::WebSocketFailed => next_web_socket_failed(s),
        UiEvent::MediaNextTrack => next_media_next_track(s),
        UiEvent::BrowserAudioEnded => next_browser_audio_ended(s),
        UiEvent::MediaPrevTrack => next_media_prev_track(s),
        UiEvent::BrowserAudioPaused => next_browser_audio_paused(s),
        UiEvent::BrowserAudioPlaying => next_browser_audio_playing(s),
    }
}

fn seek_step(s: UiState, pos: u16) -> (r: (UiState, Vec<UiAction>))
    ensures
        r.0 == seek_next(s, pos).0,
        r.1@ == seek_next(s, pos).1,
{
    let mut st = s;
    st.stop_updates = true;
    st.current_secs = pos as u64;
    let mut a: Vec<UiAction> = Vec::new();
    if s.local_browser_playback {
        a.push(UiAction::SetAudioTime(pos));
    }
    a.push(UiAction::Seek(pos));
    a.push(UiAction::ResumeUpdatesLater);
    assert(a@ =~= seek_next(s, pos).1);
    (st, a)
}

fn navigate_step(s: UiState, page: PageKind) -> (r: (UiState, Vec<UiAction>))
    ensures
        r.0 == navigate_next(s, page).0,
        r.1@ == navigate_next(s, page).1,
{
    let mut st = s;
    st.library_nav_open = s.library_nav_open && page == PageKind::Library;
    st.page = page;
    let mut a: Vec<UiAction> = Vec::new();
    a.push(UiAction::ShowPage(page));
    if page == PageKind::Player && s.vu_meter_enabled {
        a.push(UiAction::InitVuMeter);
    } else {
        a.push(UiAction::DropVuMeter);
    }
    assert(a@ =~= navigate_next(s, page).1);
    (st, a)
}

fn slider_volume_of(text: &String, current: u8) -> (r: u8)
    ensures
        r == slider_volume(text@, current),
{
    match parse_u64_chars(&to_chars(text.as_str())) {
        Some(v) => if v <= 255 {
            v as u8
        } else {
            current
        },
        None => current,
    }
}

fn one(x: UiAction) -> (r: Vec<UiAction>)
    ensures
        r@ == seq![x],
{
    let mut a: Vec<UiAction> = Vec::new();
    a.push(x);
    assert(a@ =~= seq![x]);
    a
}

fn none() -> (r: Vec<UiAction>)
    ensures
        r@ == Seq::<UiAction>::empty(),
{
    Vec::new()
}

fn step_settings_fetched(state: UiState, local_browser_playback: bool, card_id_empty: bool, device_name_empty: bool, ring_buffer_ms: usize) -> (r: (UiState, Vec<UiAction>))
    ensures
        r.0 == next_settings_fetched(state, local_browser_playback, card_id_empty, device_name_empty, ring_buffer_ms).0,
        r.1@ == next_settings_fetched(state, local_browser_playback, card_id_empty, device_name_empty, ring_buffer_ms).1,
{
    let s = state;
    let st = UiState {
        local_browser_playback,
        ring_buffer_ms: if local_browser_playback { 0 } else { ring_buffer_ms },
        playback_configured: local_browser_playback || (!card_id_empty && !device_name_empty),
        ..s
    };
    (st, if local_browser_playback { one(UiAction::SetupMediaSession) } else { none() })
}

fn step_url_changed(state: UiState, unsaved_changes: bool, page: PageKind) -> (r: (UiState, Vec<UiAction>))
    ensures
        r.0 == next_url_changed(state, unsaved_changes, page).0,
        r.1@ == next_url_changed(state, unsaved_changes, page).1,
{
    let s = state;
    if s.skip_next_url_change {
        let mut st = s;
        st.skip_next_url_change = false;
        (st, none())
    } else if unsaved_changes {
        (s, one(UiAction::ConfirmLeave(page)))
    } else {
        navigate_step(s, page)
    }
}

fn step_leave_answered(state: UiState, confirmed: bool, page: PageKind) -> (r: (UiState, Vec<UiAction>))
    ensures
        r.0 == next_leave_answered(state, confirmed, page).0,
        r.1@ == next_leave_answered(state, confirmed, page).1,
{
    let s = state;
    if confirmed {
        navigate_step(s, page)
    } else {
        let mut st = s;
        st.skip_next_url_change = true;
        (st, one(UiAction::HistoryBack))
    }
}

fn step_seek_to(state: UiState, pos: u16) -> (r: (UiState, Vec<UiAction>))
    ensures
        r.0 == next_seek_to(state, pos).0,
        r.1@ == next_seek_to(state, pos).1,
{
    let s = state;
    seek_step(s, pos)
}

fn step_seek_input(state: UiState, pos: u16) -> (r: (UiState, Vec<UiAction>))
    ensures
        r.0 == next_seek_input(state, pos).0,
        r.1@ == next_seek_input(state, pos).1,
{
    let s = state;
    let mut st = s;
    st.stop_updates = true;
    st.current_secs = pos as u64;
    (st, none())
}

fn step_resume_updates(state: UiState) -> (r: (UiState, Vec<UiAction>))
    ensures
        r.0 == next_resume_updates(state).0,
        r.1@ == next_resume_updates(state).1,
{
    let s = state;
    let mut st = s;
    st.stop_updates = false;
    (st, none())
}

fn step_set_volume(state: UiState, text: String) -> (r: (UiState, Vec<UiAction>))
    ensures
        r.0 == next_set_volume(state, text).0,
        r.1@ == next_set_volume(state, text).1,
{
    let s = state;
    let v = slider_volume_of(&text, s.volume);
    let mut st = s;
    st.stop_updates = true;
    st.volume = v;
    let mut a: Vec<UiAction> = Vec::new();
    if s.local_browser_playback {
        a.push(UiAction::SetAudioVolume(v));
    }
    a.push(UiAction::SetVol(v));
    a.push(UiAction::ResumeUpdatesLater);
    assert(a@ =~= next_set_volume(state, text).1);
    (st, a)
}

fn step_set_volume_input(state: UiState, text: String) -> (r: (UiState, Vec<UiAction>))
    ensures
        r.0 == next_set_volume_input(state, text).0,
        r.1@ == next_set_volume_input(state, text).1,
{
    let s = state;
    let v = slider_volume_of(&text, s.volume);
    let mut st = s;
    st.stop_updates = true;
    st.volume = v;
    let mut a: Vec<UiAction> = Vec::new();
    if s.local_browser_playback {
        a.push(UiAction::SetAudioVolume(v));
    }
    a.push(UiAction::ResumeUpdatesLater);
    assert(a@ =~= next_set_volume_input(state, text).1);
    (st, a)
}

fn step_volume_changed(state: UiState, current: u8, max: u8) -> (r: (UiState, Vec<UiAction>))
    ensures
        r.0 == next_volume_changed(state, current, max).0,
        r.1@ == next_volume_changed(state, current, max).1,
{
    let s = state;
    if current != s.volume {
        let mut st = s;
        st.volume = current;
        st.max_volume = max;
        if s.local_browser_playback {
            (st, one(UiAction::SetAudioVolume(current)))
        } else {
            (st, none())
        }
    } else {
        (s, none())
    }
}

fn step_toggle_mute(state: UiState) -> (r: (UiState, Vec<UiAction>))
    ensures
        r.0 == next_toggle_mute(state).0,
        r.1@ == next_toggle_mute(state).1,
{
    let s = state;
    if s.volume == 0 {
        let v = match s.pre_mute_volume {
            Some(v) => v,
            None => s.max_volume / 2,
        };
        (UiState { pre_mute_volume: None, ..s }, one(UiAction::SetVol(v)))
    } else {
        (UiState { pre_mute_volume: Some(s.volume), ..s }, one(UiAction::SetVol(0)))
    }
}

fn step_seek_backward(state: UiState) -> (r: (UiState, Vec<UiAction>))
    ensures
        r.0 == next_seek_backward(state).0,
        r.1@ == next_seek_backward(state).1,
{
    let s = state;
    let back = if s.current_secs >= 10 { s.current_secs - 10 } else { 0 };
    seek_step(s, (back % 0x1_0000) as u16)
}

fn step_seek_forward(state: UiState) -> (r: (UiState, Vec<UiAction>))
    requires
        state.current_secs + 10 <= u64::MAX,
    ensures
        r.0 == next_seek_forward(state).0,
        r.1@ == next_seek_forward(state).1,
{
    let s = state;
    let ahead = if s.current_secs + 10 <= s.total_secs { s.current_secs + 10 } else { s.total_secs };
    seek_step(s, (ahead % 0x1_0000) as u16)
}

fn step_toggle_visualizer(state: UiState) -> (r: (UiState, Vec<UiAction>))
    ensures
        r.0 == next_toggle_visualizer(state).0,
        r.1@ == next_toggle_visualizer(state).1,
{
    let s = state;
    let v = cycle_visualizer(s.visualizer);
    let mut st = s;
    st.visualizer = v;
    let mut a: Vec<UiAction> = Vec::new();
    a.push(UiAction::SaveVisualizer(v));
    a.push(UiAction::StartVisualizer(v));
    assert(a@ =~= seq![UiAction::SaveVisualizer(v), UiAction::StartVisualizer(v)]);
    (st, a)
}

fn step_toggle_lyrics(state: UiState) -> (r: (UiState, Vec<UiAction>))
    ensures
        r.0 == next_toggle_lyrics(state).0,
        r.1@ == next_toggle_lyrics(state).1,
{
    let s = state;
    let open = !s.lyrics_modal_open;
    let mut st = s;
    st.lyrics_modal_open = open;
    (st, if open && !s.has_lyrics && s.has_current_song { one(UiAction::FetchLyrics) } else { none() })
}

fn step_lyrics_fetched(state: UiState, found: bool) -> (r: (UiState, Vec<UiAction>))
    ensures
        r.0 == next_lyrics_fetched(state, found).0,
        r.1@ == next_lyrics_fetched(state, found).1,
{
    let s = state;
    let mut st = s;
    st.has_lyrics = found;
    (st, none())
}

fn step_toggle_library_nav(state: UiState) -> (r: (UiState, Vec<UiAction>))
    ensures
        r.0 == next_toggle_library_nav(state).0,
        r.1@ == next_toggle_library_nav(state).1,
{
    let s = state;
    let mut st = s;
    st.library_nav_open = !s.library_nav_open;
    (st, none())
}

fn step_toggle_welcome_modal(state: UiState) -> (r: (UiState, Vec<UiAction>))
    ensures
        r.0 == next_toggle_welcome_modal(state).0,
        r.1@ == next_toggle_welcome_modal(state).1,
{
    let s = state;
    let mut st = s;
    st.show_welcome_modal = !s.show_welcome_modal;
    (st, none())
}

fn step_dismiss_welcome_modal(state: UiState) -> (r: (UiState, Vec<UiAction>))
    ensures
        r.0 == next_dismiss_welcome_modal(state).0,
        r.1@ == next_dismiss_welcome_modal(state).1,
{
    let s = state;
    let mut st = s;
    st.show_welcome_modal = false;
    (st, one(UiAction::MarkVisited))
}

fn step_toggle_keyboard_shortcuts_help(state: UiState) -> (r: (UiState, Vec<UiAction>))
    ensures
        r.0 == next_toggle_keyboard_shortcuts_help(state).0,
        r.1@ == next_toggle_keyboard_shortcuts_help(state).1,
{
    let s = state;
    let mut st = s;
    st.show_keyboard_shortcuts = !s.show_keyboard_shortcuts;
    (st, none())
}

fn step_close_modals(state: UiState) -> (r: (UiState, Vec<UiAction>))
    ensures
        r.0 == next_close_modals(state).0,
        r.1@ == next_close_modals(state).1,
{
    let s = state;
    let mut st = s;
    st.show_keyboard_shortcuts = false;
    st.show_welcome_modal = false;
    st.lyrics_modal_open = false;
    (st, none())
}

fn step_toggle_play_pause(state: UiState) -> (r: (UiState, Vec<UiAction>))
    ensures
        r.0 == next_toggle_play_pause(state).0,
        r.1@ == next_toggle_play_pause(state).1,
{
    let s = state;
    (s, if s.playing { one(UiAction::Pause) } else { one(UiAction::Play) })
}

fn two(x: UiAction, y: UiAction) -> (r: Vec<UiAction>)
    ensures
        r@ == seq![x, y],
{
    let mut v: Vec<UiAction> = Vec::new();
    v.push(x);
    v.push(y);
    assert(v@ =~= seq![x, y]);
    v
}

fn step_playback_state_changed(state: UiState, r: ReportedState) -> (ret: (UiState, Vec<UiAction>))
    ensures
        ret.0 == next_playback_state_changed(state, r).0,
        ret.1@ == next_playback_state_changed(state, r).1,
{
    let s = state;
    let ghost want = next_playback_state_changed(state, r).1;
    match r {
        ReportedState::Playing => {
            let a = if s.local_browser_playback { one(UiAction::PlayAudio) } else { none() };
            assert(a@ =~= want);
            (UiState { playing: true, ..s }, a)
        },
        ReportedState::Failed => {
            let a = one(UiAction::ResetVuMeter);
            assert(a@ =~= want);
            (UiState { playing: false, ..s }, a)
        },
        _ => {
            let a = if s.local_browser_playback {
                two(UiAction::PauseAudio, UiAction::ResetVuMeter)
            } else {
                one(UiAction::ResetVuMeter)
            };
            assert(a@ =~= want);
            (UiState { playing: false, ..s }, a)
        },
    }
}

fn step_current_song_changed(state: UiState, liked: bool, has_image: bool) -> (r: (UiState, Vec<UiAction>))
    ensures
        r.0 == next_current_song_changed(state, liked, has_image).0,
        r.1@ == next_current_song_changed(state, liked, has_image).1,
{
    let s = state;
    let mut st = s;
    st.has_current_song = true;
    st.current_liked = liked;
    st.has_lyrics = false;
    let mut a: Vec<UiAction> = Vec::new();
    if !has_image {
        a.push(UiAction::FetchAlbumCover);
    }
    if s.local_browser_playback {
        a.push(UiAction::UpdateMediaSession);
    }
    assert(a@ =~= next_current_song_changed(state, liked, has_image).1);
    (st, a)
}

fn step_toggle_like(state: UiState) -> (r: (UiState, Vec<UiAction>))
    ensures
        r.0 == next_toggle_like(state).0,
        r.1@ == next_toggle_like(state).1,
{
    let s = state;
    if !s.has_current_song {
        (s, none())
    } else if s.current_liked {
        (s, one(UiAction::Dislike))
    } else {
        (s, one(UiAction::Like))
    }
}

fn step_like_clicked(state: UiState, like: bool) -> (r: (UiState, Vec<UiAction>))
    ensures
        r.0 == next_like_clicked(state, like).0,
        r.1@ == next_like_clicked(state, like).1,
{
    let s = state;
    let liked = if s.has_current_song { like } else { s.current_liked };
    let a = if like { UiAction::Like } else { UiAction::Dislike };
    (UiState { current_liked: liked, ..s }, one(a))
}

fn step_song_time_reported(state: UiState, current_secs: u64, total_secs: u64) -> (r: (UiState, Vec<UiAction>))
    ensures
        r.0 == next_song_time_reported(state, current_secs, total_secs).0,
        r.1@ == next_song_time_reported(state, current_secs, total_secs).1,
{
    let s = state;
    if s.local_browser_playback || s.stop_updates {
        (s, none())
    } else {
        let mut st = s;
        st.current_secs = current_secs;
        st.total_secs = total_secs;
        st.playing = true;
        (st, none())
    }
}

fn step_browser_audio_time(state: UiState, time_secs: Option<u64>, duration_secs: Option<u64>) -> (r: (
    UiState,
    Vec<UiAction>,
))
    ensures
        r.0 == next_browser_audio_time(state, time_secs, duration_secs).0,
        r.1@ == next_browser_audio_time(state, time_secs, duration_secs).1,
{
    let s = state;
    if s.stop_updates || !s.local_browser_playback {
        (s, none())
    } else {
        let mut st = s;
        if let Some(c) = time_secs {
            st.current_secs = c;
        }
        if let Some(t) = duration_secs {
            st.total_secs = t;
        }
        st.playing = true;
        (st, none())
    }
}

fn step_vu_levels(state: UiState, left: u8, right: u8) -> (r: (UiState, Vec<UiAction>))
    ensures
        r.0 == next_vu_levels(state, left, right).0,
        r.1@ == next_vu_levels(state, left, right).1,
{
    let s = state;
    (s, if s.stop_updates { none() } else { one(UiAction::UpdateVuMeter(left, right)) })
}

fn step_vu_meter_enabled(state: UiState, enabled: bool) -> (r: (UiState, Vec<UiAction>))
    ensures
        r.0 == next_vu_meter_enabled(state, enabled).0,
        r.1@ == next_vu_meter_enabled(state, enabled).1,
{
    let s = state;
    let mut st = s;
    st.vu_meter_enabled = enabled;
    (st, if enabled && s.page == PageKind::Player { one(UiAction::InitVuMeter) } else { one(UiAction::DropVuMeter) })
}

fn step_web_socket_opened(state: UiState) -> (r: (UiState, Vec<UiAction>))
    ensures
        r.0 == next_web_socket_opened(state).0,
        r.1@ == next_web_socket_opened(state).1,
{
    let s = state;
    let mut st = s;
    st.reconnecting = false;
    let mut a: Vec<UiAction> = Vec::new();
    if s.reconnecting {
        a.push(UiAction::StopReconnect);
    }
    a.push(UiAction::QueryCurrentSong);
    a.push(UiAction::QueryPlayerInfo);
    a.push(UiAction::QueryVolume);
    a.push(UiAction::NotifyPageConnected);
    assert(a@ =~= next_web_socket_opened(state).1);
    (st, a)
}

fn step_web_socket_closed(state: UiState, clean: bool) -> (r: (UiState, Vec<UiAction>))
    ensures
        r.0 == next_web_socket_closed(state, clean).0,
        r.1@ == next_web_socket_closed(state, clean).1,
{
    let s = state;
    if !clean && !s.reconnecting {
        let mut st = s;
        st.reconnecting = true;
        (st, two(UiAction::ShowReconnectInfo, UiAction::StartReconnect(2000)))
    } else {
        (s, none())
    }
}

fn step_web_socket_failed(state: UiState) -> (r: (UiState, Vec<UiAction>))
    ensures
        r.0 == next_web_socket_failed(state).0,
        r.1@ == next_web_socket_failed(state).1,
{
    let s = state;
    if !s.reconnecting {
        let mut st = s;
        st.reconnecting = true;
        (st, two(UiAction::ShowReconnectInfo, UiAction::StartReconnect(1000)))
    } else {
        (s, none())
    }
}

fn step_media_next_track(state: UiState) -> (r: (UiState, Vec<UiAction>))
    ensures
        r.0 == next_media_next_track(state).0,
        r.1@ == next_media_next_track(state).1,
{
    let s = state;
    (s, if s.local_browser_playback { one(UiAction::Next) } else { none() })
}

fn step_browser_audio_ended(state: UiState) -> (r: (UiState, Vec<UiAction>))
    ensures
        r.0 == next_browser_audio_ended(state).0,
        r.1@ == next_browser_audio_ended(state).1,
{
    let s = state;
    (s, if s.local_browser_playback { one(UiAction::Next) } else { none() })
}

fn step_media_prev_track(state: UiState) -> (r: (UiState, Vec<UiAction>))
    ensures
        r.0 == next_media_prev_track(state).0,
        r.1@ == next_media_prev_track(state).1,
{
    let s = state;
    (s, if s.local_browser_playback { one(UiAction::Previous) } else { none() })
}

fn step_browser_audio_paused(state: UiState) -> (r: (UiState, Vec<UiAction>))
    ensures
        r.0 == next_browser_audio_paused(state).0,
        r.1@ == next_browser_audio_paused(state).1,
{
    let s = state;
    let mut st = s;
    if s.local_browser_playback {
        st.playing = false;
    }
    (st, none())
}

fn step_browser_audio_playing(state: UiState) -> (r: (UiState, Vec<UiAction>))
    ensures
        r.0 == next_browser_audio_playing(state).0,
        r.1@ == next_browser_audio_playing(state).1,
{
    let s = state;
    let mut st = s;
    if s.local_browser_playback {
        st.playing = true;
    }
    (st, none())
}

/// The web interface's next state and actions (see `ui_next`).
pub fn ui_step(state: UiState, event: UiEvent) -> (r: (UiState, Vec<UiAction>))
    requires
        event is SeekForward ==> state.current_secs + 10 <= u64::MAX,
    ensures
        r.0 == ui_next(state, event).0,
        r.1@ == ui_next(state, event).1,
{
    match event {
        UiEvent::SettingsFetched { local_browser_playback, card_id_empty, device_name_empty, ring_buffer_ms } => step_settings_fetched(state, local_browser_playback, card_id_empty, device_name_empty, ring_buffer_ms),
        UiEvent::UrlChanged { unsaved_changes, page } => step_url_changed(state, unsaved_changes, page),
        UiEvent::LeaveAnswered { confirmed, page } => step_leave_answered(state, confirmed, page),
        UiEvent::SeekTo(pos) => step_seek_to(state, pos),
        UiEvent::SeekInput(pos) => step_seek_input(state, pos),
        UiEvent::ResumeUpdates => step_resume_updates(state),
        UiEvent::SetVolume(text) => step_set_volume(state, text),
        UiEvent::SetVolumeInput(text) => step_set_volume_input(state, text),
        UiEvent::VolumeChanged { current, max } => step_volume_changed(state, current, max),
        UiEvent::ToggleMute => step_toggle_mute(state),
        UiEvent::SeekBackward => step_seek_backward(state),
        UiEvent::SeekForward => step_seek_forward(state),
        UiEvent::ToggleVisualizer => step_toggle_visualizer(state),
        UiEvent::ToggleLyrics => step_toggle_lyrics(state),
        UiEvent::LyricsFetched { found } => step_lyrics_fetched(state, found),
        UiEvent::ToggleLibraryNav => step_toggle_library_nav(state),
        UiEvent::ToggleWelcomeModal => step_toggle_welcome_modal(state),
        UiEvent::DismissWelcomeModal => step_dismiss_welcome_modal(state),
        UiEvent::ToggleKeyboardShortcutsHelp => step_toggle_keyboard_shortcuts_help(state),
        UiEvent::CloseModals => step_close_modals(state),
        UiEvent::TogglePlayPause => step_toggle_play_pause(state),
        UiEvent::PlaybackStateChanged(r) => step_playback_state_changed(state, r),
        UiEvent::CurrentSongChanged { liked, has_image } => step_current_song_changed(state, liked, has_image),
        UiEvent::ToggleLike => step_toggle_like(state),
        UiEvent::LikeClicked(like) => step_like_clicked(state, like),
        UiEvent::SongTimeReported { current_secs, total_secs } => step_song_time_reported(state, current_secs, total_secs),
        UiEvent::BrowserAudioTime { time_secs, duration_secs } => step_browser_audio_time(state, time_secs, duration_secs),
        UiEvent::VuLevels { left, right } => step_vu_levels(state, left, right),
        UiEvent::VuMeterEnabled(enabled) => step_vu_meter_enabled(state, enabled),
        UiEvent::WebSocketOpened => step_web_socket_opened(state),
        UiEvent::WebSocketClosed { clean } => step_web_socket_closed(state, clean),
        UiEvent::WebSocketFailed => step_web_socket_failed(state),
        UiEvent::MediaNextTrack => step_media_next_track(state),
        UiEvent::BrowserAudioEnded => step_browser_audio_ended(state),
        UiEvent::MediaPrevTrack => step_media_prev_track(state),
        UiEvent::BrowserAudioPaused => step_browser_audio_paused(state),
        UiEvent::BrowserAudioPlaying => step_browser_audio_playing(state),
    }
}


// ------------------------------------------------------------------------
// Laws
// ------------------------------------------------------------------------

/// The visualizer after `n` presses of its toggle.
pub open spec fn visualizer_after(v: Visualizer, n: nat) -> Visualizer
    decreases n,
{
    if n == 0 {
        v
    } else {
        visualizer_after(next_visualizer(v), (n - 1) as nat)
    }
}

/// The position of a visualizer kind in the toggle's cycle.
pub open spec fn visualizer_position(v: Visualizer) -> int {
    match v {
        Visualizer::Off => 0,
        Visualizer::NeonBar => 1,
        Visualizer::Spectrum => 2,
        Visualizer::Wave => 3,
        Visualizer::Circular => 4,
        Visualizer::Lissajous => 5,
        Visualizer::Particles => 6,
        Visualizer::Mirror => 7,
        Visualizer::Starfield => 8,
        Visualizer::Dna => 9,
        Visualizer::Plasma => 10,
        Visualizer::Tunnel => 11,
        Visualizer::Bounce => 12,
    }
}

proof fn lemma_visualizer_after_position(v: Visualizer, n: nat)
    ensures
        visualizer_position(visualizer_after(v, n)) == (visualizer_position(v) + n) % 13,
    decreases n,
{
    if n > 0 {
        let w = next_visualizer(v);
        lemma_visualizer_after_position(w, (n - 1) as nat);
        assert(visualizer_position(w) == (visualizer_position(v) + 1) % 13);
        let p = visualizer_position(v);
        assert(0 <= p < 13);
        vstd::arithmetic::div_mod::lemma_add_mod_noop(p + 1, n - 1, 13);
        assert(((p + 1) % 13) % 13 == (p + 1) % 13) by {
            vstd::arithmetic::div_mod::lemma_mod_twice(p + 1, 13);
        }
        assert((p + 1) % 13 + (n - 1) == (p + 1) % 13 + (n - 1) as int);
        vstd::arithmetic::div_mod::lemma_add_mod_noop((p + 1) % 13, n - 1, 13);
        vstd::arithmetic::div_mod::lemma_mod_twice(n - 1, 13);
    }
}

/// The visualizer toggle runs through all thirteen kinds, `Off` among them,
/// and comes back to where it started.
pub proof fn law_visualizer_cycle(v: Visualizer)
    ensures
        visualizer_after(v, 13) == v,
        forall|k: nat| 0 < k < 13 ==> visualizer_after(v, k) != v,
{
    let p = visualizer_position(v);
    lemma_visualizer_after_position(v, 13);
    assert((p + 13) % 13 == p);
    assert(visualizer_position(visualizer_after(v, 13)) == p);
    assert forall|k: nat| 0 < k < 13 implies visualizer_after(v, k) != v by {
        lemma_visualizer_after_position(v, k);
        if p + k < 13 {
            assert((p + k) % 13 == p + k);
        } else {
            assert((p + k) % 13 == p + k - 13);
        }
    }
}

/// Muting asks for volume 0 and remembers the volume; once the server has
/// reported the volume at 0, unmuting asks for the remembered volume again
/// and forgets it.
pub proof fn law_unmute_restores_volume(s: UiState)
    requires
        s.volume > 0,
    ensures
        ui_next(s, UiEvent::ToggleMute).1 == seq![UiAction::SetVol(0)],
        ui_next(
            ui_next(ui_next(s, UiEvent::ToggleMute).0, UiEvent::VolumeChanged { current: 0, max: s.max_volume }).0,
            UiEvent::ToggleMute,
        ).1 == seq![UiAction::SetVol(s.volume)],
        ui_next(
            ui_next(ui_next(s, UiEvent::ToggleMute).0, UiEvent::VolumeChanged { current: 0, max: s.max_volume }).0,
            UiEvent::ToggleMute,
        ).0.pre_mute_volume is None,
{
}

/// Seeking by ten seconds stays inside the track: forward it stops at the
/// end, backward at the start, and the server is asked for that position.
pub proof fn law_seek_stays_in_track(s: UiState)
    requires
        s.current_secs <= s.total_secs,
        s.total_secs <= u16::MAX,
    ensures
        ui_next(s, UiEvent::SeekForward).0.current_secs == if s.current_secs + 10 <= s.total_secs {
            s.current_secs + 10
        } else {
            s.total_secs as int
        },
        ui_next(s, UiEvent::SeekBackward).0.current_secs == if s.current_secs >= 10 {
            s.current_secs - 10
        } else {
            0
        },
        ui_next(s, UiEvent::SeekForward).1.contains(UiAction::Seek(ui_next(s, UiEvent::SeekForward).0.current_secs as u16)),
        ui_next(s, UiEvent::SeekBackward).1.contains(UiAction::Seek(ui_next(s, UiEvent::SeekBackward).0.current_secs as u16)),
{
    let f = ui_next(s, UiEvent::SeekForward);
    let b = ui_next(s, UiEvent::SeekBackward);
    assert(f.1[f.1.len() - 2] == UiAction::Seek(f.0.current_secs as u16));
    assert(b.1[b.1.len() - 2] == UiAction::Seek(b.0.current_secs as u16));
}

/// Staying on a page with changes not applied steps the browser back, and
/// the address change that this causes is let pass without another question;
/// the one after it is asked about again.
pub proof fn law_cancelled_navigation_skips_one_change(s: UiState, page: PageKind, unsaved: bool, back_to: PageKind)
    ensures
        ui_next(s, UiEvent::LeaveAnswered { confirmed: false, page }).1 == seq![UiAction::HistoryBack],
        ui_next(
            ui_next(s, UiEvent::LeaveAnswered { confirmed: false, page }).0,
            UiEvent::UrlChanged { unsaved_changes: unsaved, page: back_to },
        ) == (UiState { skip_next_url_change: false, ..s }, Seq::<UiAction>::empty()),
{
    let s1 = ui_next(s, UiEvent::LeaveAnswered { confirmed: false, page }).0;
    assert(ui_next(s1, UiEvent::UrlChanged { unsaved_changes: unsaved, page: back_to }).1 =~= Seq::<UiAction>::empty());
}

/// Reconnecting starts once when the event socket is lost: a further loss or
/// failure while it is under way asks for nothing, and opening the socket
/// stops it.
pub proof fn law_reconnect_started_once(s: UiState, clean: bool)
    requires
        !s.reconnecting,
    ensures
        ui_next(s, UiEvent::WebSocketFailed).1 == seq![UiAction::ShowReconnectInfo, UiAction::StartReconnect(1000)],
        ui_next(ui_next(s, UiEvent::WebSocketFailed).0, UiEvent::WebSocketFailed).1 == Seq::<UiAction>::empty(),
        ui_next(ui_next(s, UiEvent::WebSocketFailed).0, UiEvent::WebSocketClosed { clean }).1 == Seq::<UiAction>::empty(),
        ui_next(ui_next(s, UiEvent::WebSocketFailed).0, UiEvent::WebSocketOpened).1[0] == UiAction::StopReconnect,
        !ui_next(ui_next(s, UiEvent::WebSocketFailed).0, UiEvent::WebSocketOpened).0.reconnecting,
{
    let s1 = ui_next(s, UiEvent::WebSocketFailed).0;
    assert(ui_next(s1, UiEvent::WebSocketFailed).1 =~= Seq::<UiAction>::empty());
    assert(ui_next(s1, UiEvent::WebSocketClosed { clean }).1 =~= Seq::<UiAction>::empty());
}

/// While the user moves a slider, or while the browser plays the audio
/// itself, the server's song time changes nothing.
pub proof fn law_song_time_held_back(s: UiState, current_secs: u64, total_secs: u64)
    requires
        s.stop_updates || s.local_browser_playback,
    ensures
        ui_next(s, UiEvent::SongTimeReported { current_secs, total_secs }) == (s, Seq::<UiAction>::empty()),
{
}

/// Once the current song's heart is clicked, the like key takes the like
/// back, and after that it likes the song again.
pub proof fn law_like_key_follows_the_heart(s: UiState, like: bool)
    requires
        s.has_current_song,
    ensures
        ui_next(ui_next(s, UiEvent::LikeClicked(like)).0, UiEvent::ToggleLike).1 == if like {
            seq![UiAction::Dislike]
        } else {
            seq![UiAction::Like]
        },
{
}

/// The digit keys go to the four main tabs in order: 1 the player, 2 the
/// queue, 3 the library, 4 the settings; no two to the same tab.
pub proof fn law_digit_keys_go_to_tabs(repeat: bool, shift: bool)
    ensures
        shortcut_spec("1"@, false, repeat, shift) == Shortcut::NavigateTo(Tab::Player),
        shortcut_spec("2"@, false, repeat, shift) == Shortcut::NavigateTo(Tab::Queue),
        shortcut_spec("3"@, false, repeat, shift) == Shortcut::NavigateTo(Tab::Library),
        shortcut_spec("4"@, false, repeat, shift) == Shortcut::NavigateTo(Tab::Settings),
        forall|a: Seq<char>, b: Seq<char>|
            #![trigger shortcut_spec(a, false, repeat, shift), shortcut_spec(b, false, repeat, shift)]
            (a == "1"@ || a == "2"@ || a == "3"@ || a == "4"@) && (b == "1"@ || b == "2"@ || b == "3"@ || b == "4"@)
                && a != b ==> shortcut_spec(a, false, repeat, shift) != shortcut_spec(b, false, repeat, shift),
{
    reveal_strlit("?");
    reveal_strlit("/");
    reveal_strlit("Escape");
    reveal_strlit(" ");
    reveal_strlit("ArrowLeft");
    reveal_strlit("ArrowRight");
    reveal_strlit("ArrowUp");
    reveal_strlit("ArrowDown");
    reveal_strlit("m");
    reveal_strlit("M");
    reveal_strlit("l");
    reveal_strlit("L");
    reveal_strlit("v");
    reveal_strlit("V");
    reveal_strlit("y");
    reveal_strlit("Y");
    reveal_strlit("s");
    reveal_strlit("S");
    reveal_strlit("1");
    reveal_strlit("2");
    reveal_strlit("3");
    reveal_strlit("4");
    assert("/"@[0] != "?"@[0]);
    assert("Escape"@.len() != "?"@.len());
    assert("Escape"@.len() != "/"@.len());
    assert(" "@[0] != "?"@[0]);
    assert(" "@[0] != "/"@[0]);
    assert(" "@.len() != "Escape"@.len());
    assert("ArrowLeft"@.len() != "?"@.len());
    assert("ArrowLeft"@.len() != "/"@.len());
    assert("ArrowLeft"@.len() != "Escape"@.len());
    assert("ArrowLeft"@.len() != " "@.len());
    assert("ArrowRight"@.len() != "?"@.len());
    assert("ArrowRight"@.len() != "/"@.len());
    assert("ArrowRight"@.len() != "Escape"@.len());
    assert("ArrowRight"@.len() != " "@.len());
    assert("ArrowRight"@.len() != "ArrowLeft"@.len());
    assert("ArrowUp"@.len() != "?"@.len());
    assert("ArrowUp"@.len() != "/"@.len());
    assert("ArrowUp"@.len() != "Escape"@.len());
    assert("ArrowUp"@.len() != " "@.len());
    assert("ArrowUp"@.len() != "ArrowLeft"@.len());
    assert("ArrowUp"@.len() != "ArrowRight"@.len());
    assert("ArrowDown"@.len() != "?"@.len());
    assert("ArrowDown"@.len() != "/"@.len());
    assert("ArrowDown"@.len() != "Escape"@.len());
    assert("ArrowDown"@.len() != " "@.len());
    assert("ArrowDown"@[5] != "ArrowLeft"@[5]);
    assert("ArrowDown"@.len() != "ArrowRight"@.len());
    assert("ArrowDown"@.len() != "ArrowUp"@.len());
    assert("m"@[0] != "?"@[0]);
    assert("m"@[0] != "/"@[0]);
    assert("m"@.len() != "Escape"@.len());
    assert("m"@[0] != " "@[0]);
    assert("m"@.len() != "ArrowLeft"@.len());
    assert("m"@.len() != "ArrowRight"@.len());
    assert("m"@.len() != "ArrowUp"@.len());
    assert("m"@.len() != "ArrowDown"@.len());
    assert("M"@[0] != "?"@[0]);
    assert("M"@[0] != "/"@[0]);
    assert("M"@.len() != "Escape"@.len());
    assert("M"@[0] != " "@[0]);
    assert("M"@.len() != "ArrowLeft"@.len());
    assert("M"@.len() != "ArrowRight"@.len());
    assert("M"@.len() != "ArrowUp"@.len());
    assert("M"@.len() != "ArrowDown"@.len());
    assert("M"@[0] != "m"@[0]);
    assert("l"@[0] != "?"@[0]);
    assert("l"@[0] != "/"@[0]);
    assert("l"@.len() != "Escape"@.len());
    assert("l"@[0] != " "@[0]);
    assert("l"@.len() != "ArrowLeft"@.len());
    assert("l"@.len() != "ArrowRight"@.len());
    assert("l"@.len() != "ArrowUp"@.len());
    assert("l"@.len() != "ArrowDown"@.len());
    assert("l"@[0] != "m"@[0]);
    assert("l"@[0] != "M"@[0]);
    assert("L"@[0] != "?"@[0]);
    assert("L"@[0] != "/"@[0]);
    assert("L"@.len() != "Escape"@.len());
    assert("L"@[0] != " "@[0]);
    assert("L"@.len() != "ArrowLeft"@.len());
    assert("L"@.len() != "ArrowRight"@.len());
    assert("L"@.len() != "ArrowUp"@.len());
    assert("L"@.len() != "ArrowDown"@.len());
    assert("L"@[0] != "m"@[0]);
    assert("L"@[0] != "M"@[0]);
    assert("L"@[0] != "l"@[0]);
    assert("v"@[0] != "?"@[0]);
    assert("v"@[0] != "/"@[0]);
    assert("v"@.len() != "Escape"@.len());
    assert("v"@[0] != " "@[0]);
    assert("v"@.len() != "ArrowLeft"@.len());
    assert("v"@.len() != "ArrowRight"@.len());
    assert("v"@.len() != "ArrowUp"@.len());
    assert("v"@.len() != "ArrowDown"@.len());
    assert("v"@[0] != "m"@[0]);
    assert("v"@[0] != "M"@[0]);
    assert("v"@[0] != "l"@[0]);
    assert("v"@[0] != "L"@[0]);
    assert("V"@[0] != "?"@[0]);
    assert("V"@[0] != "/"@[0]);
    assert("V"@.len() != "Escape"@.len());
    assert("V"@[0] != " "@[0]);
    assert("V"@.len() != "ArrowLeft"@.len());
    assert("V"@.len() != "ArrowRight"@.len());
    assert("V"@.len() != "ArrowUp"@.len());
    assert("V"@.len() != "ArrowDown"@.len());
    assert("V"@[0] != "m"@[0]);
    assert("V"@[0] != "M"@[0]);
    assert("V"@[0] != "l"@[0]);
    assert("V"@[0] != "L"@[0]);
    assert("V"@[0] != "v"@[0]);
    assert("y"@[0] != "?"@[0]);
    assert("y"@[0] != "/"@[0]);
    assert("y"@.len() != "Escape"@.len());
    assert("y"@[0] != " "@[0]);
    assert("y"@.len() != "ArrowLeft"@.len());
    assert("y"@.len() != "ArrowRight"@.len());
    assert("y"@.len() != "ArrowUp"@.len());
    assert("y"@.len() != "ArrowDown"@.len());
    assert("y"@[0] != "m"@[0]);
    assert("y"@[0] != "M"@[0]);
    assert("y"@[0] != "l"@[0]);
    assert("y"@[0] != "L"@[0]);
    assert("y"@[0] != "v"@[0]);
    assert("y"@[0] != "V"@[0]);
    assert("Y"@[0] != "?"@[0]);
    assert("Y"@[0] != "/"@[0]);
    assert("Y"@.len() != "Escape"@.len());
    assert("Y"@[0] != " "@[0]);
    assert("Y"@.len() != "ArrowLeft"@.len());
    assert("Y"@.len() != "ArrowRight"@.len());
    assert("Y"@.len() != "ArrowUp"@.len());
    assert("Y"@.len() != "ArrowDown"@.len());
    assert("Y"@[0] != "m"@[0]);
    assert("Y"@[0] != "M"@[0]);
    assert("Y"@[0] != "l"@[0]);
    assert("Y"@[0] != "L"@[0]);
    assert("Y"@[0] != "v"@[0]);
    assert("Y"@[0] != "V"@[0]);
    assert("Y"@[0] != "y"@[0]);
    assert("s"@[0] != "?"@[0]);
    assert("s"@[0] != "/"@[0]);
    assert("s"@.len() != "Escape"@.len());
    assert("s"@[0] != " "@[0]);
    assert("s"@.len() != "ArrowLeft"@.len());
    assert("s"@.len() != "ArrowRight"@.len());
    assert("s"@.len() != "ArrowUp"@.len());
    assert("s"@.len() != "ArrowDown"@.len());
    assert("s"@[0] != "m"@[0]);
    assert("s"@[0] != "M"@[0]);
    assert("s"@[0] != "l"@[0]);
    assert("s"@[0] != "L"@[0]);
    assert("s"@[0] != "v"@[0]);
    assert("s"@[0] != "V"@[0]);
    assert("s"@[0] != "y"@[0]);
    assert("s"@[0] != "Y"@[0]);
    assert("S"@[0] != "?"@[0]);
    assert("S"@[0] != "/"@[0]);
    assert("S"@.len() != "Escape"@.len());
    assert("S"@[0] != " "@[0]);
    assert("S"@.len() != "ArrowLeft"@.len());
    assert("S"@.len() != "ArrowRight"@.len());
    assert("S"@.len() != "ArrowUp"@.len());
    assert("S"@.len() != "ArrowDown"@.len());
    assert("S"@[0] != "m"@[0]);
    assert("S"@[0] != "M"@[0]);
    assert("S"@[0] != "l"@[0]);
    assert("S"@[0] != "L"@[0]);
    assert("S"@[0] != "v"@[0]);
    assert("S"@[0] != "V"@[0]);
    assert("S"@[0] != "y"@[0]);
    assert("S"@[0] != "Y"@[0]);
    assert("S"@[0] != "s"@[0]);
    assert("1"@[0] != "?"@[0]);
    assert("1"@[0] != "/"@[0]);
    assert("1"@.len() != "Escape"@.len());
    assert("1"@[0] != " "@[0]);
    assert("1"@.len() != "ArrowLeft"@.len());
    assert("1"@.len() != "ArrowRight"@.len());
    assert("1"@.len() != "ArrowUp"@.len());
    assert("1"@.len() != "ArrowDown"@.len());
    assert("1"@[0] != "m"@[0]);
    assert("1"@[0] != "M"@[0]);
    assert("1"@[0] != "l"@[0]);
    assert("1"@[0] != "L"@[0]);
    assert("1"@[0] != "v"@[0]);
    assert("1"@[0] != "V"@[0]);
    assert("1"@[0] != "y"@[0]);
    assert("1"@[0] != "Y"@[0]);
    assert("1"@[0] != "s"@[0]);
    assert("1"@[0] != "S"@[0]);
    assert("2"@[0] != "?"@[0]);
    assert("2"@[0] != "/"@[0]);
    assert("2"@.len() != "Escape"@.len());
    assert("2"@[0] != " "@[0]);
    assert("2"@.len() != "ArrowLeft"@.len());
    assert("2"@.len() != "ArrowRight"@.len());
    assert("2"@.len() != "ArrowUp"@.len());
    assert("2"@.len() != "ArrowDown"@.len());
    assert("2"@[0] != "m"@[0]);
    assert("2"@[0] != "M"@[0]);
    assert("2"@[0] != "l"@[0]);
    assert("2"@[0] != "L"@[0]);
    assert("2"@[0] != "v"@[0]);
    assert("2"@[0] != "V"@[0]);
    assert("2"@[0] != "y"@[0]);
    assert("2"@[0] != "Y"@[0]);
    assert("2"@[0] != "s"@[0]);
    assert("2"@[0] != "S"@[0]);
    assert("2"@[0] != "1"@[0]);
    assert("3"@[0] != "?"@[0]);
    assert("3"@[0] != "/"@[0]);
    assert("3"@.len() != "Escape"@.len());
    assert("3"@[0] != " "@[0]);
    assert("3"@.len() != "ArrowLeft"@.len());
    assert("3"@.len() != "ArrowRight"@.len());
    assert("3"@.len() != "ArrowUp"@.len());
    assert("3"@.len() != "ArrowDown"@.len());
    assert("3"@[0] != "m"@[0]);
    assert("3"@[0] != "M"@[0]);
    assert("3"@[0] != "l"@[0]);
    assert("3"@[0] != "L"@[0]);
    assert("3"@[0] != "v"@[0]);
    assert("3"@[0] != "V"@[0]);
    assert("3"@[0] != "y"@[0]);
    assert("3"@[0] != "Y"@[0]);
    assert("3"@[0] != "s"@[0]);
    assert("3"@[0] != "S"@[0]);
    assert("3"@[0] != "1"@[0]);
    assert("3"@[0] != "2"@[0]);
    assert("4"@[0] != "?"@[0]);
    assert("4"@[0] != "/"@[0]);
    assert("4"@.len() != "Escape"@.len());
    assert("4"@[0] != " "@[0]);
    assert("4"@.len() != "ArrowLeft"@.len());
    assert("4"@.len() != "ArrowRight"@.len());
    assert("4"@.len() != "ArrowUp"@.len());
    assert("4"@.len() != "ArrowDown"@.len());
    assert("4"@[0] != "m"@[0]);
    assert("4"@[0] != "M"@[0]);
    assert("4"@[0] != "l"@[0]);
    assert("4"@[0] != "L"@[0]);
    assert("4"@[0] != "v"@[0]);
    assert("4"@[0] != "V"@[0]);
    assert("4"@[0] != "y"@[0]);
    assert("4"@[0] != "Y"@[0]);
    assert("4"@[0] != "s"@[0]);
    assert("4"@[0] != "S"@[0]);
    assert("4"@[0] != "1"@[0]);
    assert("4"@[0] != "2"@[0]);
    assert("4"@[0] != "3"@[0]);
}

/// Letter keys work in either case, and each of them does something.
pub proof fn law_letter_keys_ignore_case(repeat: bool, shift: bool)
    ensures
        shortcut_spec("m"@, false, repeat, shift) == shortcut_spec("M"@, false, repeat, shift),
        shortcut_spec("m"@, false, repeat, shift) != Shortcut::Ignore,
        shortcut_spec("l"@, false, repeat, shift) == shortcut_spec("L"@, false, repeat, shift),
        shortcut_spec("l"@, false, repeat, shift) != Shortcut::Ignore,
        shortcut_spec("v"@, false, repeat, shift) == shortcut_spec("V"@, false, repeat, shift),
        shortcut_spec("v"@, false, repeat, shift) != Shortcut::Ignore,
        shortcut_spec("y"@, false, repeat, shift) == shortcut_spec("Y"@, false, repeat, shift),
        shortcut_spec("y"@, false, repeat, shift) != Shortcut::Ignore,
        shortcut_spec("s"@, false, repeat, shift) == shortcut_spec("S"@, false, repeat, shift),
        shortcut_spec("s"@, false, repeat, shift) != Shortcut::Ignore,
        shortcut_spec("f"@, false, repeat, shift) == shortcut_spec("F"@, false, repeat, shift),
        shortcut_spec("f"@, false, repeat, shift) != Shortcut::Ignore,
        shortcut_spec("a"@, false, repeat, shift) == shortcut_spec("A"@, false, repeat, shift),
        shortcut_spec("a"@, false, repeat, shift) != Shortcut::Ignore,
        shortcut_spec("p"@, false, repeat, shift) == shortcut_spec("P"@, false, repeat, shift),
        shortcut_spec("p"@, false, repeat, shift) != Shortcut::Ignore,
        shortcut_spec("r"@, false, repeat, shift) == shortcut_spec("R"@, false, repeat, shift),
        shortcut_spec("r"@, false, repeat, shift) != Shortcut::Ignore,
        shortcut_spec("t"@, false, repeat, shift) == shortcut_spec("T"@, false, repeat, shift),
        shortcut_spec("t"@, false, repeat, shift) != Shortcut::Ignore,
{
    reveal_strlit("?");
    reveal_strlit("/");
    reveal_strlit("Escape");
    reveal_strlit(" ");
    reveal_strlit("ArrowLeft");
    reveal_strlit("ArrowRight");
    reveal_strlit("ArrowUp");
    reveal_strlit("ArrowDown");
    reveal_strlit("m");
    reveal_strlit("M");
    reveal_strlit("l");
    reveal_strlit("L");
    reveal_strlit("v");
    reveal_strlit("V");
    reveal_strlit("y");
    reveal_strlit("Y");
    reveal_strlit("s");
    reveal_strlit("S");
    reveal_strlit("1");
    reveal_strlit("2");
    reveal_strlit("3");
    reveal_strlit("4");
    reveal_strlit("f");
    reveal_strlit("F");
    reveal_strlit("a");
    reveal_strlit("A");
    reveal_strlit("p");
    reveal_strlit("P");
    reveal_strlit("r");
    reveal_strlit("R");
    reveal_strlit("t");
    reveal_strlit("T");
    assert("/"@[0] != "?"@[0]);
    assert("Escape"@.len() != "?"@.len());
    assert("Escape"@.len() != "/"@.len());
    assert(" "@[0] != "?"@[0]);
    assert(" "@[0] != "/"@[0]);
    assert(" "@.len() != "Escape"@.len());
    assert("ArrowLeft"@.len() != "?"@.len());
    assert("ArrowLeft"@.len() != "/"@.len());
    assert("ArrowLeft"@.len() != "Escape"@.len());
    assert("ArrowLeft"@.len() != " "@.len());
    assert("ArrowRight"@.len() != "?"@.len());
    assert("ArrowRight"@.len() != "/"@.len());
    assert("ArrowRight"@.len() != "Escape"@.len());
    assert("ArrowRight"@.len() != " "@.len());
    assert("ArrowRight"@.len() != "ArrowLeft"@.len());
    assert("ArrowUp"@.len() != "?"@.len());
    assert("ArrowUp"@.len() != "/"@.len());
    assert("ArrowUp"@.len() != "Escape"@.len());
    assert("ArrowUp"@.len() != " "@.len());
    assert("ArrowUp"@.len() != "ArrowLeft"@.len());
    assert("ArrowUp"@.len() != "ArrowRight"@.len());
    assert("ArrowDown"@.len() != "?"@.len());
    assert("ArrowDown"@.len() != "/"@.len());
    assert("ArrowDown"@.len() != "Escape"@.len());
    assert("ArrowDown"@.len() != " "@.len());
    assert("ArrowDown"@[5] != "ArrowLeft"@[5]);
    assert("ArrowDown"@.len() != "ArrowRight"@.len());
    assert("ArrowDown"@.len() != "ArrowUp"@.len());
    assert("m"@[0] != "?"@[0]);
    assert("m"@[0] != "/"@[0]);
    assert("m"@.len() != "Escape"@.len());
    assert("m"@[0] != " "@[0]);
    assert("m"@.len() != "ArrowLeft"@.len());
    assert("m"@.len() != "ArrowRight"@.len());
    assert("m"@.len() != "ArrowUp"@.len());
    assert("m"@.len() != "ArrowDown"@.len());
    assert("M"@[0] != "?"@[0]);
    assert("M"@[0] != "/"@[0]);
    assert("M"@.len() != "Escape"@.len());
    assert("M"@[0] != " "@[0]);
    assert("M"@.len() != "ArrowLeft"@.len());
    assert("M"@.len() != "ArrowRight"@.len());
    assert("M"@.len() != "ArrowUp"@.len());
    assert("M"@.len() != "ArrowDown"@.len());
    assert("M"@[0] != "m"@[0]);
    assert("l"@[0] != "?"@[0]);
    assert("l"@[0] != "/"@[0]);
    assert("l"@.len() != "Escape"@.len());
    assert("l"@[0] != " "@[0]);
    assert("l"@.len() != "ArrowLeft"@.len());
    assert("l"@.len() != "ArrowRight"@.len());
    assert("l"@.len() != "ArrowUp"@.len());
    assert("l"@.len() != "ArrowDown"@.len());
    assert("l"@[0] != "m"@[0]);
    assert("l"@[0] != "M"@[0]);
    assert("L"@[0] != "?"@[0]);
    assert("L"@[0] != "/"@[0]);
    assert("L"@.len() != "Escape"@.len());
    assert("L"@[0] != " "@[0]);
    assert("L"@.len() != "ArrowLeft"@.len());
    assert("L"@.len() != "ArrowRight"@.len());
    assert("L"@.len() != "ArrowUp"@.len());
    assert("L"@.len() != "ArrowDown"@.len());
    assert("L"@[0] != "m"@[0]);
    assert("L"@[0] != "M"@[0]);
    assert("L"@[0] != "l"@[0]);
    assert("v"@[0] != "?"@[0]);
    assert("v"@[0] != "/"@[0]);
    assert("v"@.len() != "Escape"@.len());
    assert("v"@[0] != " "@[0]);
    assert("v"@.len() != "ArrowLeft"@.len());
    assert("v"@.len() != "ArrowRight"@.len());
    assert("v"@.len() != "ArrowUp"@.len());
    assert("v"@.len() != "ArrowDown"@.len());
    assert("v"@[0] != "m"@[0]);
    assert("v"@[0] != "M"@[0]);
    assert("v"@[0] != "l"@[0]);
    assert("v"@[0] != "L"@[0]);
    assert("V"@[0] != "?"@[0]);
    assert("V"@[0] != "/"@[0]);
    assert("V"@.len() != "Escape"@.len());
    assert("V"@[0] != " "@[0]);
    assert("V"@.len() != "ArrowLeft"@.len());
    assert("V"@.len() != "ArrowRight"@.len());
    assert("V"@.len() != "ArrowUp"@.len());
    assert("V"@.len() != "ArrowDown"@.len());
    assert("V"@[0] != "m"@[0]);
    assert("V"@[0] != "M"@[0]);
    assert("V"@[0] != "l"@[0]);
    assert("V"@[0] != "L"@[0]);
    assert("V"@[0] != "v"@[0]);
    assert("y"@[0] != "?"@[0]);
    assert("y"@[0] != "/"@[0]);
    assert("y"@.len() != "Escape"@.len());
    assert("y"@[0] != " "@[0]);
    assert("y"@.len() != "ArrowLeft"@.len());
    assert("y"@.len() != "ArrowRight"@.len());
    assert("y"@.len() != "ArrowUp"@.len());
    assert("y"@.len() != "ArrowDown"@.len());
    assert("y"@[0] != "m"@[0]);
    assert("y"@[0] != "M"@[0]);
    assert("y"@[0] != "l"@[0]);
    assert("y"@[0] != "L"@[0]);
    assert("y"@[0] != "v"@[0]);
    assert("y"@[0] != "V"@[0]);
    assert("Y"@[0] != "?"@[0]);
    assert("Y"@[0] != "/"@[0]);
    assert("Y"@.len() != "Escape"@.len());
    assert("Y"@[0] != " "@[0]);
    assert("Y"@.len() != "ArrowLeft"@.len());
    assert("Y"@.len() != "ArrowRight"@.len());
    assert("Y"@.len() != "ArrowUp"@.len());
    assert("Y"@.len() != "ArrowDown"@.len());
    assert("Y"@[0] != "m"@[0]);
    assert("Y"@[0] != "M"@[0]);
    assert("Y"@[0] != "l"@[0]);
    assert("Y"@[0] != "L"@[0]);
    assert("Y"@[0] != "v"@[0]);
    assert("Y"@[0] != "V"@[0]);
    assert("Y"@[0] != "y"@[0]);
    assert("s"@[0] != "?"@[0]);
    assert("s"@[0] != "/"@[0]);
    assert("s"@.len() != "Escape"@.len());
    assert("s"@[0] != " "@[0]);
    assert("s"@.len() != "ArrowLeft"@.len());
    assert("s"@.len() != "ArrowRight"@.len());
    assert("s"@.len() != "ArrowUp"@.len());
    assert("s"@.len() != "ArrowDown"@.len());
    assert("s"@[0] != "m"@[0]);
    assert("s"@[0] != "M"@[0]);
    assert("s"@[0] != "l"@[0]);
    assert("s"@[0] != "L"@[0]);
    assert("s"@[0] != "v"@[0]);
    assert("s"@[0] != "V"@[0]);
    assert("s"@[0] != "y"@[0]);
    assert("s"@[0] != "Y"@[0]);
    assert("S"@[0] != "?"@[0]);
    assert("S"@[0] != "/"@[0]);
    assert("S"@.len() != "Escape"@.len());
    assert("S"@[0] != " "@[0]);
    assert("S"@.len() != "ArrowLeft"@.len());
    assert("S"@.len() != "ArrowRight"@.len());
    assert("S"@.len() != "ArrowUp"@.len());
    assert("S"@.len() != "ArrowDown"@.len());
    assert("S"@[0] != "m"@[0]);
    assert("S"@[0] != "M"@[0]);
    assert("S"@[0] != "l"@[0]);
    assert("S"@[0] != "L"@[0]);
    assert("S"@[0] != "v"@[0]);
    assert("S"@[0] != "V"@[0]);
    assert("S"@[0] != "y"@[0]);
    assert("S"@[0] != "Y"@[0]);
    assert("S"@[0] != "s"@[0]);
    assert("1"@[0] != "?"@[0]);
    assert("1"@[0] != "/"@[0]);
    assert("1"@.len() != "Escape"@.len());
    assert("1"@[0] != " "@[0]);
    assert("1"@.len() != "ArrowLeft"@.len());
    assert("1"@.len() != "ArrowRight"@.len());
    assert("1"@.len() != "ArrowUp"@.len());
    assert("1"@.len() != "ArrowDown"@.len());
    assert("1"@[0] != "m"@[0]);
    assert("1"@[0] != "M"@[0]);
    assert("1"@[0] != "l"@[0]);
    assert("1"@[0] != "L"@[0]);
    assert("1"@[0] != "v"@[0]);
    assert("1"@[0] != "V"@[0]);
    assert("1"@[0] != "y"@[0]);
    assert("1"@[0] != "Y"@[0]);
    assert("1"@[0] != "s"@[0]);
    assert("1"@[0] != "S"@[0]);
    assert("2"@[0] != "?"@[0]);
    assert("2"@[0] != "/"@[0]);
    assert("2"@.len() != "Escape"@.len());
    assert("2"@[0] != " "@[0]);
    assert("2"@.len() != "ArrowLeft"@.len());
    assert("2"@.len() != "ArrowRight"@.len());
    assert("2"@.len() != "ArrowUp"@.len());
    assert("2"@.len() != "ArrowDown"@.len());
    assert("2"@[0] != "m"@[0]);
    assert("2"@[0] != "M"@[0]);
    assert("2"@[0] != "l"@[0]);
    assert("2"@[0] != "L"@[0]);
    assert("2"@[0] != "v"@[0]);
    assert("2"@[0] != "V"@[0]);
    assert("2"@[0] != "y"@[0]);
    assert("2"@[0] != "Y"@[0]);
    assert("2"@[0] != "s"@[0]);
    assert("2"@[0] != "S"@[0]);
    assert("2"@[0] != "1"@[0]);
    assert("3"@[0] != "?"@[0]);
    assert("3"@[0] != "/"@[0]);
    assert("3"@.len() != "Escape"@.len());
    assert("3"@[0] != " "@[0]);
    assert("3"@.len() != "ArrowLeft"@.len());
    assert("3"@.len() != "ArrowRight"@.len());
    assert("3"@.len() != "ArrowUp"@.len());
    assert("3"@.len() != "ArrowDown"@.len());
    assert("3"@[0] != "m"@[0]);
    assert("3"@[0] != "M"@[0]);
    assert("3"@[0] != "l"@[0]);
    assert("3"@[0] != "L"@[0]);
    assert("3"@[0] != "v"@[0]);
    assert("3"@[0] != "V"@[0]);
    assert("3"@[0] != "y"@[0]);
    assert("3"@[0] != "Y"@[0]);
    assert("3"@[0] != "s"@[0]);
    assert("3"@[0] != "S"@[0]);
    assert("3"@[0] != "1"@[0]);
    assert("3"@[0] != "2"@[0]);
    assert("4"@[0] != "?"@[0]);
    assert("4"@[0] != "/"@[0]);
    assert("4"@.len() != "Escape"@.len());
    assert("4"@[0] != " "@[0]);
    assert("4"@.len() != "ArrowLeft"@.len());
    assert("4"@.len() != "ArrowRight"@.len());
    assert("4"@.len() != "ArrowUp"@.len());
    assert("4"@.len() != "ArrowDown"@.len());
    assert("4"@[0] != "m"@[0]);
    assert("4"@[0] != "M"@[0]);
    assert("4"@[0] != "l"@[0]);
    assert("4"@[0] != "L"@[0]);
    assert("4"@[0] != "v"@[0]);
    assert("4"@[0] != "V"@[0]);
    assert("4"@[0] != "y"@[0]);
    assert("4"@[0] != "Y"@[0]);
    assert("4"@[0] != "s"@[0]);
    assert("4"@[0] != "S"@[0]);
    assert("4"@[0] != "1"@[0]);
    assert("4"@[0] != "2"@[0]);
    assert("4"@[0] != "3"@[0]);
    assert("f"@[0] != "?"@[0]);
    assert("f"@[0] != "/"@[0]);
    assert("f"@.len() != "Escape"@.len());
    assert("f"@[0] != " "@[0]);
    assert("f"@.len() != "ArrowLeft"@.len());
    assert("f"@.len() != "ArrowRight"@.len());
    assert("f"@.len() != "ArrowUp"@.len());
    assert("f"@.len() != "ArrowDown"@.len());
    assert("f"@[0] != "m"@[0]);
    assert("f"@[0] != "M"@[0]);
    assert("f"@[0] != "l"@[0]);
    assert("f"@[0] != "L"@[0]);
    assert("f"@[0] != "v"@[0]);
    assert("f"@[0] != "V"@[0]);
    assert("f"@[0] != "y"@[0]);
    assert("f"@[0] != "Y"@[0]);
    assert("f"@[0] != "s"@[0]);
    assert("f"@[0] != "S"@[0]);
    assert("f"@[0] != "1"@[0]);
    assert("f"@[0] != "2"@[0]);
    assert("f"@[0] != "3"@[0]);
    assert("f"@[0] != "4"@[0]);
    assert("F"@[0] != "?"@[0]);
    assert("F"@[0] != "/"@[0]);
    assert("F"@.len() != "Escape"@.len());
    assert("F"@[0] != " "@[0]);
    assert("F"@.len() != "ArrowLeft"@.len());
    assert("F"@.len() != "ArrowRight"@.len());
    assert("F"@.len() != "ArrowUp"@.len());
    assert("F"@.len() != "ArrowDown"@.len());
    assert("F"@[0] != "m"@[0]);
    assert("F"@[0] != "M"@[0]);
    assert("F"@[0] != "l"@[0]);
    assert("F"@[0] != "L"@[0]);
    assert("F"@[0] != "v"@[0]);
    assert("F"@[0] != "V"@[0]);
    assert("F"@[0] != "y"@[0]);
    assert("F"@[0] != "Y"@[0]);
    assert("F"@[0] != "s"@[0]);
    assert("F"@[0] != "S"@[0]);
    assert("F"@[0] != "1"@[0]);
    assert("F"@[0] != "2"@[0]);
    assert("F"@[0] != "3"@[0]);
    assert("F"@[0] != "4"@[0]);
    assert("F"@[0] != "f"@[0]);
    assert("a"@[0] != "?"@[0]);
    assert("a"@[0] != "/"@[0]);
    assert("a"@.len() != "Escape"@.len());
    assert("a"@[0] != " "@[0]);
    assert("a"@.len() != "ArrowLeft"@.len());
    assert("a"@.len() != "ArrowRight"@.len());
    assert("a"@.len() != "ArrowUp"@.len());
    assert("a"@.len() != "ArrowDown"@.len());
    assert("a"@[0] != "m"@[0]);
    assert("a"@[0] != "M"@[0]);
    assert("a"@[0] != "l"@[0]);
    assert("a"@[0] != "L"@[0]);
    assert("a"@[0] != "v"@[0]);
    assert("a"@[0] != "V"@[0]);
    assert("a"@[0] != "y"@[0]);
    assert("a"@[0] != "Y"@[0]);
    assert("a"@[0] != "s"@[0]);
    assert("a"@[0] != "S"@[0]);
    assert("a"@[0] != "1"@[0]);
    assert("a"@[0] != "2"@[0]);
    assert("a"@[0] != "3"@[0]);
    assert("a"@[0] != "4"@[0]);
    assert("a"@[0] != "f"@[0]);
    assert("a"@[0] != "F"@[0]);
    assert("A"@[0] != "?"@[0]);
    assert("A"@[0] != "/"@[0]);
    assert("A"@.len() != "Escape"@.len());
    assert("A"@[0] != " "@[0]);
    assert("A"@.len() != "ArrowLeft"@.len());
    assert("A"@.len() != "ArrowRight"@.len());
    assert("A"@.len() != "ArrowUp"@.len());
    assert("A"@.len() != "ArrowDown"@.len());
    assert("A"@[0] != "m"@[0]);
    assert("A"@[0] != "M"@[0]);
    assert("A"@[0] != "l"@[0]);
    assert("A"@[0] != "L"@[0]);
    assert("A"@[0] != "v"@[0]);
    assert("A"@[0] != "V"@[0]);
    assert("A"@[0] != "y"@[0]);
    assert("A"@[0] != "Y"@[0]);
    assert("A"@[0] != "s"@[0]);
    assert("A"@[0] != "S"@[0]);
    assert("A"@[0] != "1"@[0]);
    assert("A"@[0] != "2"@[0]);
    assert("A"@[0] != "3"@[0]);
    assert("A"@[0] != "4"@[0]);
    assert("A"@[0] != "f"@[0]);
    assert("A"@[0] != "F"@[0]);
    assert("A"@[0] != "a"@[0]);
    assert("p"@[0] != "?"@[0]);
    assert("p"@[0] != "/"@[0]);
    assert("p"@.len() != "Escape"@.len());
    assert("p"@[0] != " "@[0]);
    assert("p"@.len() != "ArrowLeft"@.len());
    assert("p"@.len() != "ArrowRight"@.len());
    assert("p"@.len() != "ArrowUp"@.len());
    assert("p"@.len() != "ArrowDown"@.len());
    assert("p"@[0] != "m"@[0]);
    assert("p"@[0] != "M"@[0]);
    assert("p"@[0] != "l"@[0]);
    assert("p"@[0] != "L"@[0]);
    assert("p"@[0] != "v"@[0]);
    assert("p"@[0] != "V"@[0]);
    assert("p"@[0] != "y"@[0]);
    assert("p"@[0] != "Y"@[0]);
    assert("p"@[0] != "s"@[0]);
    assert("p"@[0] != "S"@[0]);
    assert("p"@[0] != "1"@[0]);
    assert("p"@[0] != "2"@[0]);
    assert("p"@[0] != "3"@[0]);
    assert("p"@[0] != "4"@[0]);
    assert("p"@[0] != "f"@[0]);
    assert("p"@[0] != "F"@[0]);
    assert("p"@[0] != "a"@[0]);
    assert("p"@[0] != "A"@[0]);
    assert("P"@[0] != "?"@[0]);
    assert("P"@[0] != "/"@[0]);
    assert("P"@.len() != "Escape"@.len());
    assert("P"@[0] != " "@[0]);
    assert("P"@.len() != "ArrowLeft"@.len());
    assert("P"@.len() != "ArrowRight"@.len());
    assert("P"@.len() != "ArrowUp"@.len());
    assert("P"@.len() != "ArrowDown"@.len());
    assert("P"@[0] != "m"@[0]);
    assert("P"@[0] != "M"@[0]);
    assert("P"@[0] != "l"@[0]);
    assert("P"@[0] != "L"@[0]);
    assert("P"@[0] != "v"@[0]);
    assert("P"@[0] != "V"@[0]);
    assert("P"@[0] != "y"@[0]);
    assert("P"@[0] != "Y"@[0]);
    assert("P"@[0] != "s"@[0]);
    assert("P"@[0] != "S"@[0]);
    assert("P"@[0] != "1"@[0]);
    assert("P"@[0] != "2"@[0]);
    assert("P"@[0] != "3"@[0]);
    assert("P"@[0] != "4"@[0]);
    assert("P"@[0] != "f"@[0]);
    assert("P"@[0] != "F"@[0]);
    assert("P"@[0] != "a"@[0]);
    assert("P"@[0] != "A"@[0]);
    assert("P"@[0] != "p"@[0]);
    assert("r"@[0] != "?"@[0]);
    assert("r"@[0] != "/"@[0]);
    assert("r"@.len() != "Escape"@.len());
    assert("r"@[0] != " "@[0]);
    assert("r"@.len() != "ArrowLeft"@.len());
    assert("r"@.len() != "ArrowRight"@.len());
    assert("r"@.len() != "ArrowUp"@.len());
    assert("r"@.len() != "ArrowDown"@.len());
    assert("r"@[0] != "m"@[0]);
    assert("r"@[0] != "M"@[0]);
    assert("r"@[0] != "l"@[0]);
    assert("r"@[0] != "L"@[0]);
    assert("r"@[0] != "v"@[0]);
    assert("r"@[0] != "V"@[0]);
    assert("r"@[0] != "y"@[0]);
    assert("r"@[0] != "Y"@[0]);
    assert("r"@[0] != "s"@[0]);
    assert("r"@[0] != "S"@[0]);
    assert("r"@[0] != "1"@[0]);
    assert("r"@[0] != "2"@[0]);
    assert("r"@[0] != "3"@[0]);
    assert("r"@[0] != "4"@[0]);
    assert("r"@[0] != "f"@[0]);
    assert("r"@[0] != "F"@[0]);
    assert("r"@[0] != "a"@[0]);
    assert("r"@[0] != "A"@[0]);
    assert("r"@[0] != "p"@[0]);
    assert("r"@[0] != "P"@[0]);
    assert("R"@[0] != "?"@[0]);
    assert("R"@[0] != "/"@[0]);
    assert("R"@.len() != "Escape"@.len());
    assert("R"@[0] != " "@[0]);
    assert("R"@.len() != "ArrowLeft"@.len());
    assert("R"@.len() != "ArrowRight"@.len());
    assert("R"@.len() != "ArrowUp"@.len());
    assert("R"@.len() != "ArrowDown"@.len());
    assert("R"@[0] != "m"@[0]);
    assert("R"@[0] != "M"@[0]);
    assert("R"@[0] != "l"@[0]);
    assert("R"@[0] != "L"@[0]);
    assert("R"@[0] != "v"@[0]);
    assert("R"@[0] != "V"@[0]);
    assert("R"@[0] != "y"@[0]);
    assert("R"@[0] != "Y"@[0]);
    assert("R"@[0] != "s"@[0]);
    assert("R"@[0] != "S"@[0]);
    assert("R"@[0] != "1"@[0]);
    assert("R"@[0] != "2"@[0]);
    assert("R"@[0] != "3"@[0]);
    assert("R"@[0] != "4"@[0]);
    assert("R"@[0] != "f"@[0]);
    assert("R"@[0] != "F"@[0]);
    assert("R"@[0] != "a"@[0]);
    assert("R"@[0] != "A"@[0]);
    assert("R"@[0] != "p"@[0]);
    assert("R"@[0] != "P"@[0]);
    assert("R"@[0] != "r"@[0]);
    assert("t"@[0] != "?"@[0]);
    assert("t"@[0] != "/"@[0]);
    assert("t"@.len() != "Escape"@.len());
    assert("t"@[0] != " "@[0]);
    assert("t"@.len() != "ArrowLeft"@.len());
    assert("t"@.len() != "ArrowRight"@.len());
    assert("t"@.len() != "ArrowUp"@.len());
    assert("t"@.len() != "ArrowDown"@.len());
    assert("t"@[0] != "m"@[0]);
    assert("t"@[0] != "M"@[0]);
    assert("t"@[0] != "l"@[0]);
    assert("t"@[0] != "L"@[0]);
    assert("t"@[0] != "v"@[0]);
    assert("t"@[0] != "V"@[0]);
    assert("t"@[0] != "y"@[0]);
    assert("t"@[0] != "Y"@[0]);
    assert("t"@[0] != "s"@[0]);
    assert("t"@[0] != "S"@[0]);
    assert("t"@[0] != "1"@[0]);
    assert("t"@[0] != "2"@[0]);
    assert("t"@[0] != "3"@[0]);
    assert("t"@[0] != "4"@[0]);
    assert("t"@[0] != "f"@[0]);
    assert("t"@[0] != "F"@[0]);
    assert("t"@[0] != "a"@[0]);
    assert("t"@[0] != "A"@[0]);
    assert("t"@[0] != "p"@[0]);
    assert("t"@[0] != "P"@[0]);
    assert("t"@[0] != "r"@[0]);
    assert("t"@[0] != "R"@[0]);
    assert("T"@[0] != "?"@[0]);
    assert("T"@[0] != "/"@[0]);
    assert("T"@.len() != "Escape"@.len());
    assert("T"@[0] != " "@[0]);
    assert("T"@.len() != "ArrowLeft"@.len());
    assert("T"@.len() != "ArrowRight"@.len());
    assert("T"@.len() != "ArrowUp"@.len());
    assert("T"@.len() != "ArrowDown"@.len());
    assert("T"@[0] != "m"@[0]);
    assert("T"@[0] != "M"@[0]);
    assert("T"@[0] != "l"@[0]);
    assert("T"@[0] != "L"@[0]);
    assert("T"@[0] != "v"@[0]);
    assert("T"@[0] != "V"@[0]);
    assert("T"@[0] != "y"@[0]);
    assert("T"@[0] != "Y"@[0]);
    assert("T"@[0] != "s"@[0]);
    assert("T"@[0] != "S"@[0]);
    assert("T"@[0] != "1"@[0]);
    assert("T"@[0] != "2"@[0]);
    assert("T"@[0] != "3"@[0]);
    assert("T"@[0] != "4"@[0]);
    assert("T"@[0] != "f"@[0]);
    assert("T"@[0] != "F"@[0]);
    assert("T"@[0] != "a"@[0]);
    assert("T"@[0] != "A"@[0]);
    assert("T"@[0] != "p"@[0]);
    assert("T"@[0] != "P"@[0]);
    assert("T"@[0] != "r"@[0]);
    assert("T"@[0] != "R"@[0]);
    assert("T"@[0] != "t"@[0]);
}

/// Nothing is taken from the keyboard while a text field has the focus.
pub proof fn law_keys_ignored_while_typing(key: Seq<char>, repeat: bool, shift: bool)
    ensures
        shortcut_spec(key, true, repeat, shift) == Shortcut::Ignore,
{
}

/// Holding a key down matters for the space bar alone, and shift for the
/// left and right arrows alone (which then seek instead of changing song).
pub proof fn law_repeat_and_shift_matter_only_where_used(key: Seq<char>, repeat: bool, shift: bool)
    ensures
        key != " "@ ==> shortcut_spec(key, false, repeat, shift) == shortcut_spec(key, false, !repeat, shift),
        key != "ArrowLeft"@ && key != "ArrowRight"@ ==> shortcut_spec(key, false, repeat, shift) == shortcut_spec(
            key,
            false,
            repeat,
            !shift,
        ),
        shortcut_spec(" "@, false, true, shift) == Shortcut::Ignore,
        shortcut_spec(" "@, false, false, shift) == Shortcut::TogglePlayPause,
        shortcut_spec("ArrowLeft"@, false, repeat, true) == Shortcut::SeekBackward,
        shortcut_spec("ArrowLeft"@, false, repeat, false) == Shortcut::Previous,
        shortcut_spec("ArrowRight"@, false, repeat, true) == Shortcut::SeekForward,
        shortcut_spec("ArrowRight"@, false, repeat, false) == Shortcut::Next,
{
    reveal_strlit("?");
    reveal_strlit("/");
    reveal_strlit("Escape");
    reveal_strlit(" ");
    reveal_strlit("ArrowLeft");
    reveal_strlit("ArrowRight");
    assert("/"@[0] != "?"@[0]);
    assert("Escape"@.len() != "?"@.len());
    assert("Escape"@.len() != "/"@.len());
    assert(" "@[0] != "?"@[0]);
    assert(" "@[0] != "/"@[0]);
    assert(" "@.len() != "Escape"@.len());
    assert("ArrowLeft"@.len() != "?"@.len());
    assert("ArrowLeft"@.len() != "/"@.len());
    assert("ArrowLeft"@.len() != "Escape"@.len());
    assert("ArrowLeft"@.len() != " "@.len());
    assert("ArrowRight"@.len() != "?"@.len());
    assert("ArrowRight"@.len() != "/"@.len());
    assert("ArrowRight"@.len() != "Escape"@.len());
    assert("ArrowRight"@.len() != " "@.len());
    assert("ArrowRight"@.len() != "ArrowLeft"@.len());
}

/// Letting go of the position slider asks for the slider's position (the
/// browser's own audio moving there too when the browser plays), holding
/// back server updates meanwhile.
pub proof fn law_seeks_go_where_shown(s: UiState, pos: u16, p: u16)
    ensures
        ui_next(s, UiEvent::SeekTo(pos)).1.contains(UiAction::Seek(pos)),
        ui_next(s, UiEvent::SeekTo(pos)).0.current_secs == pos,
        ui_next(s, UiEvent::SeekTo(pos)).0.stop_updates,
        s.local_browser_playback ==> ui_next(s, UiEvent::SeekTo(pos)).1.contains(UiAction::SetAudioTime(pos)),
        !ui_next(s, UiEvent::SeekInput(pos)).1.contains(UiAction::Seek(p)),
{
    let a = ui_next(s, UiEvent::SeekTo(pos)).1;
    assert(a[a.len() - 2] == UiAction::Seek(pos));
    if s.local_browser_playback {
        assert(a[0] == UiAction::SetAudioTime(pos));
    }
}

/// Letting go of the volume slider at a number of the volume's range asks
/// the server for that volume, and the interface shows it.
pub proof fn law_volume_slider_sets_volume(s: UiState, text: String, n: u8)
    requires
        text@ == decimal(n as nat),
    ensures
        ui_next(s, UiEvent::SetVolume(text)).0.volume == n,
        ui_next(s, UiEvent::SetVolume(text)).1.contains(UiAction::SetVol(n)),
        !ui_next(s, UiEvent::SetVolumeInput(text)).1.contains(UiAction::SetVol(n)),
{
    lemma_parse_decimal(n as nat, u8::MAX as int);
    let a = ui_next(s, UiEvent::SetVolume(text)).1;
    assert(a[a.len() - 2] == UiAction::SetVol(n));
}

/// Every seek the interface asks for is to the position it then shows: only
/// the seek events ask for one, and each to its new position.
#[verifier::rlimit(50)]
pub proof fn law_seek_actions_match_position(s: UiState, e: UiEvent, p: u16)
    ensures
        ui_next(s, e).1.contains(UiAction::Seek(p)) ==> ui_next(s, e).0.current_secs == p,
        ui_next(s, e).1.contains(UiAction::Seek(p)) ==> (e is SeekTo || e is SeekBackward || e is SeekForward),
{
    match e {
        UiEvent::SettingsFetched { .. } => {},
        UiEvent::UrlChanged { .. } => {},
        UiEvent::LeaveAnswered { .. } => {},
        UiEvent::SeekTo(..) => {},
        UiEvent::SeekInput(..) => {},
        UiEvent::ResumeUpdates => {},
        UiEvent::SetVolume(..) => {},
        UiEvent::SetVolumeInput(..) => {},
        UiEvent::VolumeChanged { .. } => {},
        UiEvent::ToggleMute => {},
        UiEvent::SeekBackward => {},
        UiEvent::SeekForward => {},
        UiEvent::ToggleVisualizer => {},
        UiEvent::ToggleLyrics => {},
        UiEvent::LyricsFetched { .. } => {},
        UiEvent::ToggleLibraryNav => {},
        UiEvent::ToggleWelcomeModal => {},
        UiEvent::DismissWelcomeModal => {},
        UiEvent::ToggleKeyboardShortcutsHelp => {},
        UiEvent::CloseModals => {},
        UiEvent::TogglePlayPause => {},
        UiEvent::PlaybackStateChanged(..) => {},
        UiEvent::CurrentSongChanged { .. } => {},
        UiEvent::ToggleLike => {},
        UiEvent::LikeClicked(..) => {},
        UiEvent::SongTimeReported { .. } => {},
        UiEvent::BrowserAudioTime { .. } => {},
        UiEvent::VuLevels { .. } => {},
        UiEvent::VuMeterEnabled(..) => {},
        UiEvent::WebSocketOpened => {},
        UiEvent::WebSocketClosed { .. } => {},
        UiEvent::WebSocketFailed => {},
        UiEvent::MediaNextTrack => {},
        UiEvent::MediaPrevTrack => {},
        UiEvent::BrowserAudioEnded => {},
        UiEvent::BrowserAudioPaused => {},
        UiEvent::BrowserAudioPlaying => {},
    }
}

/// Toggling the visualizer moves to the next kind of the cycle, and saves and
/// starts that kind.
pub proof fn law_visualizer_toggle_saves_and_starts(s: UiState)
    ensures
        ui_next(s, UiEvent::ToggleVisualizer).0.visualizer == visualizer_after(s.visualizer, 1),
        ui_next(s, UiEvent::ToggleVisualizer).1.contains(UiAction::SaveVisualizer(visualizer_after(s.visualizer, 1))),
        ui_next(s, UiEvent::ToggleVisualizer).1.contains(UiAction::StartVisualizer(visualizer_after(s.visualizer, 1))),
{
    assert(visualizer_after(s.visualizer, 1) == visualizer_after(next_visualizer(s.visualizer), 0));
    let a = ui_next(s, UiEvent::ToggleVisualizer).1;
    assert(a[0] == UiAction::SaveVisualizer(visualizer_after(s.visualizer, 1)));
    assert(a[1] == UiAction::StartVisualizer(visualizer_after(s.visualizer, 1)));
}

/// Each dialog toggle opens a closed dialog and closes an open one, twice
/// leaving it as it was; closing the dialogs closes all three.
pub proof fn law_dialogs_toggle_and_close(s: UiState)
    ensures
        ui_next(s, UiEvent::ToggleKeyboardShortcutsHelp).0.show_keyboard_shortcuts == !s.show_keyboard_shortcuts,
        ui_next(ui_next(s, UiEvent::ToggleKeyboardShortcutsHelp).0, UiEvent::ToggleKeyboardShortcutsHelp).0 == s,
        ui_next(s, UiEvent::ToggleWelcomeModal).0.show_welcome_modal == !s.show_welcome_modal,
        ui_next(ui_next(s, UiEvent::ToggleWelcomeModal).0, UiEvent::ToggleWelcomeModal).0 == s,
        ui_next(s, UiEvent::ToggleLibraryNav).0.library_nav_open == !s.library_nav_open,
        ui_next(s, UiEvent::ToggleLyrics).0.lyrics_modal_open == !s.lyrics_modal_open,
        !ui_next(s, UiEvent::CloseModals).0.show_keyboard_shortcuts,
        !ui_next(s, UiEvent::CloseModals).0.show_welcome_modal,
        !ui_next(s, UiEvent::CloseModals).0.lyrics_modal_open,
        !ui_next(s, UiEvent::DismissWelcomeModal).0.show_welcome_modal,
        ui_next(s, UiEvent::DismissWelcomeModal).1.contains(UiAction::MarkVisited),
{
    assert(ui_next(s, UiEvent::DismissWelcomeModal).1[0] == UiAction::MarkVisited);
}

/// Play/pause asks to pause what plays and to play what does not; the
/// player's reported state decides what counts as playing.
pub proof fn law_play_pause_follows_the_player(s: UiState, r: ReportedState)
    ensures
        ui_next(s, UiEvent::TogglePlayPause).0 == s,
        ui_next(s, UiEvent::TogglePlayPause).1 == if s.playing {
            seq![UiAction::Pause]
        } else {
            seq![UiAction::Play]
        },
        ui_next(s, UiEvent::PlaybackStateChanged(r)).0.playing == (r == ReportedState::Playing),
        ui_next(ui_next(s, UiEvent::PlaybackStateChanged(r)).0, UiEvent::TogglePlayPause).1 == if r
            == ReportedState::Playing {
            seq![UiAction::Pause]
        } else {
            seq![UiAction::Play]
        },
{
}

/// Playback counts as set up once the settings arrive exactly when the
/// browser plays, or a sound card and device are named; the browser keeps no
/// ring buffer.
pub proof fn law_playback_configured_by_settings(
    s: UiState,
    local_browser_playback: bool,
    card_id_empty: bool,
    device_name_empty: bool,
    ring_buffer_ms: usize,
)
    ensures
        ui_next(
            s,
            UiEvent::SettingsFetched { local_browser_playback, card_id_empty, device_name_empty, ring_buffer_ms },
        ).0.playback_configured == (local_browser_playback || (!card_id_empty && !device_name_empty)),
        ui_next(
            s,
            UiEvent::SettingsFetched { local_browser_playback, card_id_empty, device_name_empty, ring_buffer_ms },
        ).0.ring_buffer_ms == if local_browser_playback {
            0
        } else {
            ring_buffer_ms
        },
        ui_next(
            s,
            UiEvent::SettingsFetched { local_browser_playback, card_id_empty, device_name_empty, ring_buffer_ms },
        ).0.local_browser_playback == local_browser_playback,
{
}

} // verus!
