use rsplayer::settings_edit::{
    add_mount, effective_mount_point, filter_type_of, remove_mount, select_audio_interface, DspFilterKind, Mount,
    OutputSelection, VolumeCtrl,
};
use rsplayer::ui::DspFilterType;

fn selection() -> OutputSelection {
    OutputSelection { local_browser_playback: false, card_id: "hw:0".to_string(), volume_ctrl: VolumeCtrl::Other }
}

#[test]
fn choosing_the_browser_keeps_the_card() {
    let mut s = selection();
    select_audio_interface(&mut s, "browser");
    assert!(s.local_browser_playback);
    assert_eq!(s.card_id, "hw:0");
    assert_eq!(s.volume_ctrl, VolumeCtrl::Other);
}

#[test]
fn choosing_a_card_sets_its_volume_control() {
    let mut s = OutputSelection { local_browser_playback: true, ..selection() };
    select_audio_interface(&mut s, "pipewire");
    assert!(!s.local_browser_playback);
    assert_eq!(s.card_id, "pipewire");
    assert_eq!(s.volume_ctrl, VolumeCtrl::Pipewire);
    select_audio_interface(&mut s, "hw:1");
    assert_eq!(s.card_id, "hw:1");
    assert_eq!(s.volume_ctrl, VolumeCtrl::Alsa);
}

fn mount(name: &str, point: Option<&str>) -> Mount {
    Mount { name: name.to_string(), mount_point: point.map(|p| p.to_string()) }
}

#[test]
fn a_mount_is_mounted_under_mnt_rsplayer_by_default() {
    assert_eq!(effective_mount_point(&mount("nas", None)), "/mnt/rsplayer/nas");
    assert_eq!(effective_mount_point(&mount("nas", Some("/media/nas"))), "/media/nas");
}

#[test]
fn removing_a_mount_drops_its_music_directory() {
    let mut mounts = vec![mount("nas", None), mount("usb", Some("/media/usb"))];
    let mut dirs = vec!["/music".to_string(), "/mnt/rsplayer/nas".to_string(), "/media/usb".to_string()];
    remove_mount(&mut mounts, &mut dirs, &"nas".to_string());
    assert_eq!(mounts.len(), 1);
    assert_eq!(mounts[0].name, "usb");
    assert_eq!(dirs, vec!["/music".to_string(), "/media/usb".to_string()]);
    // an unknown name changes nothing
    remove_mount(&mut mounts, &mut dirs, &"cd".to_string());
    assert_eq!(mounts.len(), 1);
    assert_eq!(dirs.len(), 2);
}

#[test]
fn adding_a_mount_adds_its_directory_once() {
    let mut mounts = Vec::new();
    let mut dirs = vec!["/mnt/rsplayer/nas".to_string()];
    add_mount(&mut mounts, &mut dirs, &"nas".to_string());
    assert_eq!(mounts.len(), 1);
    assert_eq!(mounts[0].mount_point, None);
    assert_eq!(dirs.len(), 1);
    add_mount(&mut mounts, &mut dirs, &"usb".to_string());
    assert_eq!(dirs, vec!["/mnt/rsplayer/nas".to_string(), "/mnt/rsplayer/usb".to_string()]);
}

#[test]
fn filters_show_their_type() {
    assert_eq!(filter_type_of(DspFilterKind::Peaking), DspFilterType::Peaking);
    assert_eq!(filter_type_of(DspFilterKind::HighShelfFO), DspFilterType::HighShelfFO);
    assert_eq!(filter_type_of(DspFilterKind::LinkwitzTransform), DspFilterType::Gain);
}
