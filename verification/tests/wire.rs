use lofi::mesh::wire::{
    Beacon, MeshMessage, ProbeRequest, ProbeResponse, WireError, MESH_VERSION, MESH_WIRE_MAX,
};

fn round_trip(msg: MeshMessage) {
    let (buf, len) = msg.encode();
    assert!(len <= MESH_WIRE_MAX);
    assert_eq!(MeshMessage::decode(&buf[..len]), Ok(msg));
}

#[test]
fn beacon_round_trips() {
    round_trip(MeshMessage::Beacon(Beacon {
        sender: 7,
        root_id: 1,
        epoch: 42,
        stratum: 2,
        seq: 99,
        mesh_us: 123_456_789,
        rate_ppb: -54_321,
        root_dispersion_us: 800,
    }));
}

#[test]
fn probes_round_trip() {
    round_trip(MeshMessage::ProbeRequest(ProbeRequest {
        sender: 3,
        target: 1,
        t1_local_us: 9_000_000,
        seq: 5,
    }));
    round_trip(MeshMessage::ProbeResponse(ProbeResponse {
        sender: 1,
        target: 3,
        t1_local_us: 9_000_000,
        t2_local_us: 9_001_200,
        t3_local_us: 9_001_300,
        sender_mesh_us: 12_345_678,
        root_id: 1,
        stratum: 0,
        seq: 5,
    }));
}

#[test]
fn rejects_short_and_bad_version() {
    assert_eq!(MeshMessage::decode(&[]), Err(WireError::Short));
    assert_eq!(MeshMessage::decode(&[2, 1]), Err(WireError::Version));
    assert_eq!(
        MeshMessage::decode(&[MESH_VERSION, 9]),
        Err(WireError::Kind)
    );
}

#[test]
fn truncated_body_is_short_and_trailing_bytes_are_ignored() {
    let msg = MeshMessage::ProbeRequest(ProbeRequest {
        sender: 3,
        target: 1,
        t1_local_us: -5,
        seq: 5,
    });
    let (buf, len) = msg.encode();
    assert_eq!(MeshMessage::decode(&buf[..len - 1]), Err(WireError::Short));
    let mut longer = buf[..len].to_vec();
    longer.extend_from_slice(&[0xaa, 0xbb]);
    assert_eq!(MeshMessage::decode(&longer), Ok(msg));
    assert_eq!(buf[0], MESH_VERSION);
}
