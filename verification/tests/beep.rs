use lofi::sequencer::BeepVoice;
use lofi::synth::{render_beep_block, RenderConfig};

#[test]
fn beep_sounds_only_at_the_start_of_each_beat() {
    let voice = BeepVoice::new(500_000, 50_000, 1_000);
    assert_eq!(voice.sample_i16(60_000, 48_000, 1_000), 0);
    assert_eq!(voice.sample_i16(0, 48_000, 1_000), 1_000);
    // Half a period (24 samples of 48) in, the square wave flips.
    assert_eq!(voice.sample_i16(500, 48_000, 1_000), -1_000);
    assert_eq!(voice.sample_i16(500_000, 48_000, 1_000), 1_000);
    assert_eq!(voice.sample_i16(-499_500, 48_000, 1_000), -1_000);
}

#[test]
fn block_rendering_matches_single_samples() {
    let voice = BeepVoice::new(250_000, 20_000, 440);
    let cfg = RenderConfig::new(48_000, 12_000);
    let mut out = [0i16; 256];
    render_beep_block(&mut out, 1_000, voice, cfg);
    for (ix, sample) in out.iter().enumerate() {
        let t = 1_000 + (ix as i64 * 1_000_000 / 48_000);
        assert_eq!(*sample, voice.sample_i16(t, 48_000, 12_000));
    }
    assert!(out.iter().any(|s| *s != 0));
}
