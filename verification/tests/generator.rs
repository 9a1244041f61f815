use lofi::generator::{role_note, VoiceRole};

#[test]
fn generation_is_deterministic() {
    assert_eq!(
        role_note(123, 4, 0, VoiceRole::Bass),
        role_note(123, 4, 0, VoiceRole::Bass)
    );
    assert_ne!(
        role_note(123, 4, 0, VoiceRole::Bass),
        role_note(124, 4, 0, VoiceRole::Bass)
    );
}

#[test]
fn roles_play_on_their_steps() {
    for seed in 0..32u64 {
        for bar in 0..8u32 {
            for step in 0..16u8 {
                let kick = role_note(seed, bar, step, VoiceRole::Kick);
                if step % 4 == 0 {
                    assert_eq!(kick.unwrap().midi_note, 36);
                } else if step != 14 {
                    assert!(kick.is_none());
                }
                assert_eq!(role_note(seed, bar, step, VoiceRole::Bass).is_some(), step % 4 == 0);
                assert_eq!(
                    role_note(seed, bar, step, VoiceRole::Chord(1)).is_some(),
                    step == 0 || step == 8
                );
                assert_eq!(
                    role_note(seed, bar, step, VoiceRole::Texture).is_some(),
                    step == 4 || step == 12
                );
                if step % 2 == 0 {
                    assert!(role_note(seed, bar, step, VoiceRole::Lead).is_none());
                }
            }
        }
    }
}
