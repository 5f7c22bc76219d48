//! The verified core of a music player: its playback queue, playlists, MPD
//! response reading, device format choice and playback decisions.

pub mod audio_source;
pub mod device;
pub mod dsd;
pub mod mpd_client;
pub mod mpd_response;
pub mod playback;
pub mod playlists;
pub mod queue;
pub mod settings_edit;
pub mod song;
pub mod text;
pub mod ui;
pub mod ui_control;
