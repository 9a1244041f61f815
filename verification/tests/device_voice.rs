use lofi::device::voice::{ArpDirection, DeviceVoice};

#[test]
fn voice_keeps_its_pitch_and_direction() {
    let voice = DeviceVoice::new(880, ArpDirection::Down);
    assert_eq!(voice.beep_hz, 880);
    assert_eq!(voice.arp, ArpDirection::Down);
}
