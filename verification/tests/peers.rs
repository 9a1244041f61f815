use lofi::device::peers::{PeerTable, PEER_ACTIVE_WINDOW_US};

#[test]
fn counts_distinct_peers_in_window() {
    let mut peers = PeerTable::new();
    peers.note(2, 1_000);
    peers.note(3, 1_000);
    peers.note(2, 1_500); // refreshes, not a new peer
    assert_eq!(peers.count_active(1_500), 2);
}

#[test]
fn stale_peers_drop_out() {
    let mut peers = PeerTable::new();
    peers.note(2, 1_000);
    assert_eq!(peers.count_active(1_000 + PEER_ACTIVE_WINDOW_US), 1);
    assert_eq!(peers.count_active(1_000 + PEER_ACTIVE_WINDOW_US + 1), 0);
}

#[test]
fn a_full_table_evicts_the_stalest_peer() {
    let mut peers = PeerTable::new();
    for id in 1..=12u64 {
        peers.note(id, 1_000 + id as i64);
    }
    assert_eq!(peers.count_active(2_000), 12);
    // Peer 1 is the stalest; a thirteenth peer takes its slot.
    peers.note(13, 3_000);
    assert_eq!(peers.count_active(3_000), 12);
    // Refreshing peer 2 keeps the count.
    peers.note(2, 3_000);
    assert_eq!(peers.count_active(3_000), 12);
}
