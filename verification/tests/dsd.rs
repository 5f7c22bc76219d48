use rsplayer::dsd::{DsdU32, DSD_SILENCE};

#[test]
fn silence_is_the_idle_pattern() {
    assert_eq!(DSD_SILENCE, 0x69696969);
    assert_eq!(DsdU32::equilibrium(), DsdU32(0x69696969));
    assert_eq!(DsdU32::from_pcm_sample(), DsdU32(0x69696969));
    // the idle pattern has as many ones as zeros
    assert_eq!(DsdU32::equilibrium().count_ones(), 16);
    assert_eq!(DsdU32::equilibrium().level(), 0);
}

#[test]
fn words_wrap_around() {
    assert_eq!(DsdU32(u32::MAX).add(DsdU32(2)), DsdU32(1));
    assert_eq!(DsdU32(1).sub(DsdU32(2)), DsdU32(u32::MAX));
    assert_eq!(DsdU32(10).add(DsdU32(5)).sub(DsdU32(5)), DsdU32(10));
    assert_eq!(DsdU32(0xdeadbeef).add(DsdU32(0xffff0000)).sub(DsdU32(0xffff0000)), DsdU32(0xdeadbeef));
}

#[test]
fn words_pass_through() {
    assert_eq!(DsdU32(0x12345678).clamped(), DsdU32(0x12345678));
    assert_eq!(DsdU32(0x12345678).into_raw_sample(), 0x12345678);
    assert_eq!(DsdU32::from_u32_sample(0xabcdef01), DsdU32(0xabcdef01));
    assert_eq!(DsdU32::from_i32_sample(-1), DsdU32(u32::MAX));
    assert_eq!(DsdU32::from_i32_sample(5), DsdU32(5));
    assert!(DsdU32::is_dsd());
}

#[test]
fn level_measures_the_density_of_ones() {
    assert_eq!(DsdU32(0).level(), -16);
    assert_eq!(DsdU32(u32::MAX).level(), 16);
    assert_eq!(DsdU32(u32::MAX).count_ones(), 32);
    assert_eq!(DsdU32(0b1011).count_ones(), 3);
    assert_eq!(DsdU32::default(), DsdU32(0));
}
