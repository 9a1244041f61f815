use lofi::mesh::peer::{PeerTable, PEER_TIMEOUT_US};

#[test]
fn lowest_id_becomes_root() {
    let mut table = PeerTable::new();
    // We are node 5. Peer 2 is the root (stratum 0); peer 8 is a leaf.
    table.observe_beacon(2, 2, 0, 1_000);
    table.observe_beacon(8, 2, 1, 1_000);
    let (root, stratum) = table.elect_root(5, 1_000);
    assert_eq!(root, 2);
    assert_eq!(stratum, 1); // one hop from root via peer 2
}

#[test]
fn we_are_root_when_lowest() {
    let mut table = PeerTable::new();
    table.observe_beacon(7, 7, 0, 1_000);
    let (root, stratum) = table.elect_root(3, 1_000);
    assert_eq!(root, 3);
    assert_eq!(stratum, 0);
}

#[test]
fn stale_peers_drop_from_election() {
    let mut table = PeerTable::new();
    table.observe_beacon(1, 1, 0, 1_000);
    // Long after the timeout, peer 1 no longer counts; node 4 elects itself.
    let (root, _) = table.elect_root(4, 1_000 + PEER_TIMEOUT_US + 1);
    assert_eq!(root, 4);
}

#[test]
fn lower_delay_weighs_more() {
    let mut table = PeerTable::new();
    table.observe_probe(1, 1, 0, 500, 0, 1_000);
    table.observe_probe(2, 1, 0, 5_000, 0, 1_000);
    let near = table.get(1).unwrap().weight(1_000);
    let far = table.get(2).unwrap().weight(1_000);
    assert!(near > far);
}

#[test]
fn fresh_peers_and_best_delay() {
    let mut table = PeerTable::new();
    table.observe_probe(1, 1, 0, 900, 0, 1_000);
    table.observe_probe(2, 1, 1, 300, 0, 1_000);
    table.observe_beacon(3, 1, 2, 1_000);
    assert_eq!(table.fresh_count(1_000), 3);
    assert_eq!(table.fresh_peers(1_000).len(), 3);
    assert_eq!(table.best_delay_us(1_000), Some(300));
    assert_eq!(table.fresh_count(1_000 + PEER_TIMEOUT_US + 1), 0);
    assert_eq!(table.best_delay_us(1_000 + PEER_TIMEOUT_US + 1), None);
}

#[test]
fn new_peers_take_free_slots_then_evict_the_stalest() {
    let mut t = PeerTable::new();
    for id in 1..=12u64 {
        t.observe_beacon(id, 1, 1, id as i64 * 1_000);
    }
    assert!((1..=12u64).all(|id| t.get(id).is_some()));
    t.observe_beacon(13, 1, 1, 20_000);
    assert!(t.get(1).is_none());
    assert!((2..=13u64).all(|id| t.get(id).is_some()));
}

#[test]
fn a_first_probe_seeds_any_delay() {
    let mut t = PeerTable::new();
    t.observe_probe(3, 1, 1, i64::MAX, 7, 1_000);
    let p = *t.get(3).unwrap();
    assert_eq!(p.delay_us, i64::MAX);
    assert_eq!(p.jitter_us, i64::MAX / 4);
    assert_eq!(p.last_error_us, 7);
    assert_eq!(p.samples, 1);
    t.observe_probe(3, 1, 1, i64::MAX - 800, 0, 2_000);
    let q = *t.get(3).unwrap();
    assert_eq!(q.delay_us, i64::MAX - 100);
    assert_eq!(q.jitter_us, i64::MAX / 4 + (700 - i64::MAX / 4) / 4);
    assert_eq!(q.samples, 2);
}
