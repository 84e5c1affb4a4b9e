use chat::registry::{PeerAddr, Registry};

fn addr(n: u16) -> PeerAddr {
    PeerAddr { ip: 0xffff_7f00_0001, port: n }
}

fn keys<H>(entries: &[(PeerAddr, H)]) -> Vec<u16> {
    entries.iter().map(|e| e.0.port).collect()
}

#[test]
fn insert_replaces_an_earlier_entry() {
    let mut r: Registry<&str> = Registry::new();
    r.insert(addr(1), "a");
    r.insert(addr(2), "b");
    r.insert(addr(1), "c");
    assert_eq!(r.len(), 2);
    assert_eq!(keys(&r.snapshot()), vec![2, 1]);
    let idx = r.find(addr(1)).unwrap();
    assert_eq!(r.get_at(idx).1, "c");
    assert!(r.contains(addr(2)));
    assert!(!r.contains(addr(3)));
    assert!(r.find(addr(3)).is_none());
}

#[test]
fn snapshot_except_leaves_out_excluded_peers() {
    let mut r: Registry<u32> = Registry::new();
    for p in 1..=4u16 {
        r.insert(addr(p), p as u32 * 10);
    }
    let snap = r.snapshot_except(&vec![addr(2), addr(4), addr(9)]);
    assert_eq!(snap, vec![(addr(1), 10), (addr(3), 30)]);
    let snap = r.snapshot_except_one(addr(3));
    assert_eq!(keys(&snap), vec![1, 2, 4]);
    assert_eq!(r.len(), 4);
}

#[test]
fn broadcast_failures_removed_once() {
    let mut r: Registry<u32> = Registry::new();
    for p in 1..=4u16 {
        r.insert(addr(p), p as u32);
    }
    // writes to 2 and 4 failed; 4 is listed twice and 7 was never registered
    let failed = vec![addr(4), addr(2), addr(4), addr(7)];
    let removed = r.remove_all(&failed);
    assert_eq!(removed, vec![(addr(2), 2), (addr(4), 4)]);
    assert_eq!(r.snapshot(), vec![(addr(1), 1), (addr(3), 3)]);
    // the read loop saw the same faults: they are already gone
    let again = r.remove_all(&failed);
    assert!(again.is_empty());
    assert_eq!(r.len(), 2);
}

#[test]
fn remove_is_exactly_once() {
    let mut r: Registry<u32> = Registry::new();
    r.insert(addr(1), 11);
    r.insert(addr(2), 22);
    assert_eq!(r.remove(addr(1)), Some(11));
    assert_eq!(r.remove(addr(1)), None);
    assert_eq!(r.snapshot(), vec![(addr(2), 22)]);
}

#[test]
fn empty_registry() {
    let mut r: Registry<u32> = Registry::new();
    assert_eq!(r.len(), 0);
    assert!(r.snapshot().is_empty());
    assert!(r.remove_all(&vec![addr(1)]).is_empty());
    assert_eq!(r.remove(addr(1)), None);
}
