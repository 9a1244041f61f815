use lofi::music::sample::{decode_mulaw, encode_mulaw, Sample};

#[test]
fn mulaw_silence_has_canonical_code() {
    assert_eq!(encode_mulaw(0), 0xff);
}

#[test]
fn mulaw_preserves_sign() {
    assert_ne!(encode_mulaw(12_000) & 0x80, encode_mulaw(-12_000) & 0x80);
}

#[test]
fn canonical_silence_decodes_to_zero() {
    assert_eq!(decode_mulaw(0xff), 0);
    assert_eq!(decode_mulaw(0x7f), 0);
}

#[test]
fn descriptor_reports_flash_cost() {
    static DATA: [u8; 32] = [0xff; 32];
    let sample = Sample::mulaw(&DATA, 22_050, 32_768);
    assert_eq!(sample.len(), 32);
    assert_eq!(sample.sample_rate(), 22_050);
    assert!(!sample.is_empty());
}

#[test]
fn encoding_round_trips_within_the_segment_step() {
    for pcm in (-32_768i32..=32_767).step_by(37) {
        let pcm = pcm as i16;
        let back = decode_mulaw(encode_mulaw(pcm));
        let clipped = (pcm as i32).clamp(-32_635, 32_635);
        assert!((back - clipped).abs() <= 1_024, "{pcm} decoded as {back}");
        assert!(pcm == 0 || back == 0 || (back < 0) == (pcm < 0));
    }
    assert_eq!(decode_mulaw(0x80), 32_124);
    assert_eq!(decode_mulaw(0x00), -32_124);
}
