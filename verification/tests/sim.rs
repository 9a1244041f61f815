use lofi::mesh::wire::{MeshMessage, ProbeRequest, ProbeResponse};
use lofi::sim::net::{advance_time, link_active, loss_percent, reply_target};
use lofi::sim::node::{drift_and_offset, local_time, pans_left, same_group, GROUP_SIZE};
use lofi::sim::rng::Lcg;
use lofi::sim::stats::{phase_stats_of, PhaseStats};
use lofi::sim::wav::{wav_bytes, StereoSample};

#[test]
fn lcg_is_deterministic_and_bounded() {
    let mut a = Lcg::new(0x10f1);
    let mut b = Lcg::new(0x10f1);
    for _ in 0..100 {
        assert_eq!(a.next(), b.next());
    }
    let mut c = Lcg::new(1);
    assert_eq!(c.next(), 6364136223846793005u64.wrapping_add(1442695040888963407));
    for _ in 0..1_000 {
        let v = c.range_i32(-120_000, 120_000);
        assert!((-120_000..120_000).contains(&v));
        let w = c.range_i64(700, 4_500);
        assert!((700..4_500).contains(&w));
        assert!(c.next_bounded(100) < 100);
        assert_eq!(c.next_bounded(0), 0);
    }
}

#[test]
fn fixed_nodes_draw_nothing() {
    let mut rng = Lcg::new(5);
    assert_eq!(drift_and_offset(0, 1, &mut rng), (0, 0));
    assert_eq!(drift_and_offset(1, 2, &mut rng), (120_000, 140_000));
    assert_eq!(drift_and_offset(GROUP_SIZE, 5, &mut rng), (-40_000, 520_000));
    let mut fresh = Lcg::new(5);
    assert_eq!(rng.next(), fresh.next());
    let (drift, offset) = drift_and_offset(2, 3, &mut fresh);
    assert!((-120_000..120_000).contains(&drift));
    assert!((-180_000..180_000).contains(&offset));
    let (_, far) = drift_and_offset(6, 7, &mut fresh);
    assert!((340_000..700_000).contains(&far));
}

#[test]
fn clusters_group_and_pan() {
    assert!(same_group(0, 3));
    assert!(!same_group(3, 4));
    assert!(pans_left(2));
    assert!(!pans_left(5));
    assert!(pans_left(9));
}

#[test]
fn local_time_adds_offset_and_drift() {
    assert_eq!(local_time(1_000_000, 500, 0), 1_000_500);
    assert_eq!(local_time(1_000_000_000, 0, 120_000), 1_000_120_000);
    assert_eq!(local_time(-1_000_000_000, 0, 120_000), -1_000_120_000);
}

#[test]
fn links_and_loss_follow_the_clusters() {
    assert!(link_active(0, 1, 0, 8_000_000));
    assert!(!link_active(0, 5, 0, 8_000_000));
    assert!(link_active(0, 5, 8_000_000, 8_000_000));
    assert_eq!(loss_percent(0, 2), 4);
    assert_eq!(loss_percent(0, 4), 8);
    let req = MeshMessage::ProbeRequest(ProbeRequest { sender: 1, target: 2, t1_local_us: 0, seq: 0 });
    assert_eq!(reply_target(&req), None);
    let resp = MeshMessage::ProbeResponse(ProbeResponse {
        sender: 2,
        target: 1,
        t1_local_us: 0,
        t2_local_us: 0,
        t3_local_us: 0,
        sender_mesh_us: 0,
        root_id: 1,
        stratum: 0,
        seq: 0,
    });
    assert_eq!(reply_target(&resp), Some(1));
}

#[test]
fn audio_blocks_advance_network_time_exactly() {
    let mut acc = 0;
    let mut total = 0;
    for _ in 0..750 {
        let (dur, rest) = advance_time(acc, 64);
        total += dur;
        acc = rest;
        assert!((0..48_000).contains(&acc));
    }
    // 750 blocks of 64 frames at 48 kHz are exactly one second.
    assert_eq!(total, 1_000_000);
    assert_eq!(acc, 0);
}

#[test]
fn phase_stats_measure_spread_and_error() {
    assert_eq!(phase_stats_of(&[]), PhaseStats { max_spread_us: 0, mean_abs_error_us: 0 });
    let stats = phase_stats_of(&[100, 110, 130]);
    assert_eq!(stats.max_spread_us, 30);
    // Mean 113; deviations 13, 3, 17.
    assert_eq!(stats.mean_abs_error_us, 11);
}

#[test]
fn wav_header_and_samples() {
    let samples = [
        StereoSample { left: 1, right: -1 },
        StereoSample { left: 0x1234, right: 0 },
    ];
    let bytes = wav_bytes(48_000, &samples);
    assert_eq!(bytes.len(), 44 + 8);
    assert_eq!(&bytes[0..4], b"RIFF");
    assert_eq!(u32::from_le_bytes([bytes[4], bytes[5], bytes[6], bytes[7]]), 36 + 8);
    assert_eq!(&bytes[8..16], b"WAVEfmt ");
    assert_eq!(u32::from_le_bytes([bytes[24], bytes[25], bytes[26], bytes[27]]), 48_000);
    assert_eq!(u32::from_le_bytes([bytes[28], bytes[29], bytes[30], bytes[31]]), 192_000);
    assert_eq!(&bytes[36..40], b"data");
    assert_eq!(&bytes[44..52], &[1, 0, 0xff, 0xff, 0x34, 0x12, 0, 0]);
}
