use rsplayer::device::{
    fallback_rate_candidates, find_device_channels, find_device_rate, find_device_rate_with_override, find_dsd_config,
    output_plan,
    DeviceCapabilities, SupportedConfig, STANDARD_RATES,
};

fn pcm(min_rate: u32, max_rate: u32, channels: u16) -> SupportedConfig {
    SupportedConfig { is_dsd: false, min_rate, max_rate, channels }
}

fn dsd(min_rate: u32, max_rate: u32, channels: u16) -> SupportedConfig {
    SupportedConfig { is_dsd: true, min_rate, max_rate, channels }
}

#[test]
fn unknown_device_needs_no_change() {
    assert_eq!(find_device_rate(&None, 44100), None);
    assert_eq!(find_device_channels(&None, 2), None);
    assert!(fallback_rate_candidates(&None, 44100).is_empty());
    let caps = DeviceCapabilities::query(&None, 44100, 2);
    assert_eq!(caps.rate, None);
    assert_eq!(caps.channels, None);
}

#[test]
fn covered_rate_is_played_as_is() {
    let cfgs = Some(vec![pcm(8000, 48000, 2)]);
    assert_eq!(find_device_rate(&cfgs, 44100), None);
    assert_eq!(find_device_rate(&cfgs, 48000), None);
}

#[test]
fn smallest_multiple_is_preferred() {
    let cfgs = Some(vec![pcm(44100, 44100, 2), pcm(192000, 192000, 2), pcm(96000, 96000, 2)]);
    assert_eq!(find_device_rate(&cfgs, 48000), Some(96000));
}

#[test]
fn nearest_rate_without_a_multiple() {
    let cfgs = Some(vec![pcm(32000, 32000, 2), pcm(44100, 44100, 2)]);
    assert_eq!(find_device_rate(&cfgs, 48000), Some(44100));
    // of two equally near rates the first found wins
    let cfgs = Some(vec![pcm(40000, 40000, 2), pcm(56000, 56000, 2)]);
    assert_eq!(find_device_rate(&cfgs, 48000), Some(40000));
}

#[test]
fn dsd_configurations_are_ignored() {
    let cfgs = Some(vec![dsd(48000, 48000, 6), pcm(44100, 44100, 2)]);
    assert_eq!(find_device_rate(&cfgs, 48000), Some(44100));
    assert_eq!(find_device_channels(&cfgs, 6), Some(2));
    let only_dsd = Some(vec![dsd(48000, 48000, 2)]);
    assert_eq!(find_device_rate(&only_dsd, 44100), None);
    assert_eq!(find_device_channels(&only_dsd, 6), None);
}

#[test]
fn channels_supported_or_nearest() {
    let cfgs = Some(vec![pcm(44100, 48000, 2), pcm(44100, 48000, 8)]);
    assert_eq!(find_device_channels(&cfgs, 2), None);
    assert_eq!(find_device_channels(&cfgs, 6), Some(8));
    let cfgs = Some(vec![pcm(44100, 48000, 4), pcm(44100, 48000, 8)]);
    assert_eq!(find_device_channels(&cfgs, 6), Some(4));
}

#[test]
fn query_combines_rate_and_channels() {
    let cfgs = Some(vec![pcm(96000, 96000, 2)]);
    let caps = DeviceCapabilities::query(&cfgs, 48000, 6);
    assert_eq!(caps.rate, Some(96000));
    assert_eq!(caps.channels, Some(2));
}

#[test]
fn fallback_rates_in_order_each_once() {
    let cfgs = Some(vec![pcm(44100, 96000, 2)]);
    assert_eq!(fallback_rate_candidates(&cfgs, 48000), vec![96000, 44100, 88200]);
    let caps = DeviceCapabilities::query(&cfgs, 48000, 2);
    assert_eq!(DeviceCapabilities::fallback_rates(&caps, &cfgs, 48000), vec![96000, 44100, 88200]);
}

#[test]
fn fallback_rates_never_hold_the_source() {
    let cfgs = Some(vec![pcm(16000, 192000, 2), dsd(2822400, 2822400, 2)]);
    let rates = fallback_rate_candidates(&cfgs, 44100);
    assert!(!rates.contains(&44100));
    let mut seen = std::collections::HashSet::new();
    assert!(rates.iter().all(|r| seen.insert(*r)));
    assert_eq!(rates[0], 88200);
    assert_eq!(rates[1], 132300);
    assert_eq!(rates[2], 176400);
    // a saturated multiple equals the source and is left out
    let huge = Some(vec![pcm(0, u32::MAX, 2)]);
    let rates = fallback_rate_candidates(&huge, u32::MAX);
    assert!(!rates.contains(&u32::MAX));
    assert_eq!(rates[0], 0);
}

#[test]
fn standard_rates_are_the_usual_ones() {
    assert_eq!(STANDARD_RATES.len(), 9);
    assert_eq!(STANDARD_RATES[0], 192000);
    assert_eq!(STANDARD_RATES[8], 16000);
}

#[test]
fn pcm_plan_converts_what_the_device_lacks() {
    let cfgs = Some(vec![pcm(96000, 96000, 2)]);
    let plan = output_plan(&cfgs, None, false, 48000, 1);
    assert_eq!(plan.device_rate, Some(96000));
    assert_eq!(plan.device_channels, Some(2));
    assert_eq!(plan.output_rate, 96000);
    assert_eq!(plan.output_channels, 2);
    assert!(plan.process_pcm);
    let plan = output_plan(&cfgs, None, false, 96000, 2);
    assert_eq!(plan.device_rate, None);
    assert_eq!(plan.output_rate, 96000);
    assert_eq!(plan.output_channels, 2);
}

#[test]
fn dsd_plan_sends_the_source_as_it_is() {
    let cfgs = Some(vec![pcm(44100, 44100, 2), dsd(2822400, 2822400, 2)]);
    let plan = output_plan(&cfgs, None, true, 2822400, 2);
    assert_eq!(plan.device_rate, None);
    assert_eq!(plan.device_channels, None);
    assert_eq!(plan.output_rate, 2822400);
    assert_eq!(plan.output_channels, 2);
    assert!(!plan.process_pcm);
    let unknown = output_plan(&None, None, false, 44100, 6);
    assert_eq!(unknown.output_channels, 6);
    assert_eq!(unknown.device_rate, None);
}

#[test]
fn first_covering_dsd_configuration_is_chosen() {
    let cfgs = vec![pcm(2822400, 2822400, 2), dsd(44100, 44100, 2), dsd(2822400, 5644800, 2), dsd(2822400, 2822400, 2)];
    assert_eq!(find_dsd_config(&cfgs, 2822400), Some(2));
    assert_eq!(find_dsd_config(&cfgs, 11289600), None);
}

#[test]
fn resampling_override_forces_a_rate() {
    let cfgs = Some(vec![pcm(8000, 192000, 2)]);
    assert_eq!(find_device_rate_with_override(Some("96000"), &cfgs, 44100), Some(96000));
    // the same rate as the source, or text that is no rate, leaves the device to decide
    assert_eq!(find_device_rate_with_override(Some("44100"), &cfgs, 44100), None);
    assert_eq!(find_device_rate_with_override(Some("fast"), &cfgs, 44100), None);
    assert_eq!(find_device_rate_with_override(Some("4294967296"), &cfgs, 44100), None);
    assert_eq!(find_device_rate_with_override(None, &Some(vec![pcm(96000, 96000, 2)]), 48000), Some(96000));
    let plan = output_plan(&cfgs, Some("48000"), false, 44100, 2);
    assert_eq!(plan.device_rate, Some(48000));
    assert_eq!(plan.output_rate, 48000);
    // DSD is never resampled
    let plan = output_plan(&cfgs, Some("48000"), true, 2822400, 2);
    assert_eq!(plan.device_rate, None);
}
