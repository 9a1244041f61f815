use lofi::mesh::engine::BEACON_INTERVAL_US;
use lofi::mesh::peer::PEER_TIMEOUT_US;
use lofi::mesh::wire::{Beacon, MeshMessage, ProbeRequest};
use lofi::mesh::SyncEngine;

#[test]
fn lone_node_is_its_own_root_and_schedules() {
    let mut engine = SyncEngine::new(5);
    assert!(engine.is_root());
    assert_eq!(engine.schedule_now(1_000_000), 1_000_000);
}

#[test]
fn answers_probe_addressed_to_us() {
    let mut engine = SyncEngine::new(1);
    let req = MeshMessage::ProbeRequest(ProbeRequest {
        sender: 2,
        target: 1,
        t1_local_us: 500,
        seq: 9,
    });
    match engine.handle(req, 1_200) {
        Some(MeshMessage::ProbeResponse(r)) => {
            assert_eq!(r.target, 2);
            assert_eq!(r.t1_local_us, 500);
            assert_eq!(r.t2_local_us, 1_200);
            assert_eq!(r.seq, 9);
        }
        other => panic!("expected probe response, got {other:?}"),
    }
}

#[test]
fn adopts_lower_id_root_from_beacon() {
    let mut engine = SyncEngine::new(5);
    let beacon = MeshMessage::Beacon(Beacon {
        sender: 2,
        root_id: 2,
        epoch: 2,
        stratum: 0,
        seq: 1,
        mesh_us: 9_000_000,
        rate_ppb: 0,
        root_dispersion_us: 0,
    });
    engine.handle(beacon, 1_000);
    assert!(!engine.is_root());
    assert_eq!(engine.quality(1_000).root_id, 2);
    assert_eq!(engine.quality(1_000).stratum, 1);
}

#[test]
fn isolated_node_re_elects_itself_after_peer_timeout() {
    let mut engine = SyncEngine::new(2);
    engine.handle(
        MeshMessage::Beacon(Beacon {
            sender: 1,
            root_id: 1,
            epoch: 1,
            stratum: 0,
            seq: 1,
            mesh_us: 0,
            rate_ppb: 0,
            root_dispersion_us: 0,
        }),
        0,
    );
    assert_eq!(engine.quality(0).root_id, 1);

    let now = PEER_TIMEOUT_US + BEACON_INTERVAL_US;
    engine.due_beacon(now);
    let quality = engine.quality(now);
    assert!(quality.is_root);
    assert_eq!(quality.root_id, 2);
    assert_eq!(quality.peers, 0);
}

#[test]
fn roster_is_sorted_and_places_this_node() {
    let mut engine = SyncEngine::new(5);
    for sender in [9u64, 2, 7] {
        engine.handle(
            MeshMessage::Beacon(Beacon {
                sender,
                root_id: 2,
                epoch: 2,
                stratum: 1,
                seq: 1,
                mesh_us: 0,
                rate_ppb: 0,
                root_dispersion_us: 0,
            }),
            1_000,
        );
    }
    let roster = engine.roster(1_000);
    assert_eq!(roster.ids(), &[2, 5, 7, 9]);
    assert_eq!(roster.len(), 4);
    assert_eq!(roster.my_index(), 1);
    assert!(!roster.is_empty());
}

#[test]
fn beacons_and_probes_follow_their_intervals() {
    let mut engine = SyncEngine::new(3);
    assert!(engine.due_beacon(0).is_some());
    assert!(engine.due_beacon(BEACON_INTERVAL_US - 1).is_none());
    assert!(engine.due_beacon(BEACON_INTERVAL_US).is_some());
    // A root has no upstream to probe.
    assert!(engine.due_probe(1_000_000).is_none());
}
