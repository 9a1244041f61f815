use lofi::music::packer::{decode_flac, PackError};

fn crc8(bytes: &[u8]) -> u8 {
    let mut crc = 0u8;
    for byte in bytes {
        crc ^= byte;
        for _ in 0..8 {
            crc = if crc & 0x80 != 0 { (crc << 1) ^ 0x07 } else { crc << 1 };
        }
    }
    crc
}

fn crc16(bytes: &[u8]) -> u16 {
    let mut crc = 0u16;
    for byte in bytes {
        crc ^= (*byte as u16) << 8;
        for _ in 0..8 {
            crc = if crc & 0x8000 != 0 { (crc << 1) ^ 0x8005 } else { crc << 1 };
        }
    }
    crc
}

/// A mono, 16-bit, 48 kHz stream of one 192-sample frame holding `value`.
fn constant_stream(value: i16, channels: u32) -> Vec<u8> {
    let mut bytes = b"fLaC".to_vec();
    bytes.extend_from_slice(&[0x80, 0x00, 0x00, 0x22]);
    bytes.extend_from_slice(&192u16.to_be_bytes());
    bytes.extend_from_slice(&192u16.to_be_bytes());
    bytes.extend_from_slice(&[0; 6]);
    let packed: u64 = (48_000u64 << 44) | (((channels as u64).wrapping_sub(1) & 7) << 41) | (15 << 36) | 192;
    bytes.extend_from_slice(&packed.to_be_bytes());
    bytes.extend_from_slice(&[0; 16]);
    let mut frame = vec![0xff, 0xf8, 0x1a, 0x08, 0x00];
    frame.push(crc8(&frame));
    frame.push(0x00);
    frame.extend_from_slice(&value.to_be_bytes());
    let crc = crc16(&frame);
    frame.extend_from_slice(&crc.to_be_bytes());
    bytes.extend_from_slice(&frame);
    bytes
}

#[test]
fn a_constant_stream_decodes_to_its_samples() {
    let audio = decode_flac(&constant_stream(256, 1)).unwrap();
    assert_eq!(audio.channels, 1);
    assert_eq!(audio.bits_per_sample, 16);
    assert_eq!(audio.sample_rate, 48_000);
    assert_eq!(audio.samples.len(), 192);
    assert!(audio.samples.iter().all(|s| *s == 256));
}

#[test]
fn bytes_that_are_not_flac_are_refused_with_the_decoders_words() {
    match decode_flac(b"RIFF....WAVE") {
        Err(PackError::Decode(text)) => assert!(!text.is_empty()),
        other => panic!("expected a decoding error, got {other:?}"),
    }
    assert!(matches!(decode_flac(&[]), Err(PackError::Decode(_))));
}
