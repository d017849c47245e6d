use omgpp_server::identity::PlayerId;
use omgpp_server::registry::ConnectionRegistry;

#[test]
fn empty_registry() {
    let r = ConnectionRegistry::new();
    assert_eq!(r.len(), 0);
    assert!(!r.contains_identifier(PlayerId { value: 1 }));
    assert!(r.lookup_by_identifier(PlayerId { value: 1 }).is_none());
    assert!(r.lookup_by_handle(10).is_none());
    assert!(r.pairs().is_empty());
}

#[test]
fn insert_and_lookup_both_ways() {
    let mut r = ConnectionRegistry::new();
    assert!(r.insert(PlayerId { value: 1 }, 10));
    assert!(r.insert(PlayerId { value: 2 }, 20));
    assert_eq!(r.len(), 2);
    assert_eq!(r.lookup_by_identifier(PlayerId { value: 1 }), Some(10));
    assert_eq!(r.lookup_by_identifier(PlayerId { value: 2 }), Some(20));
    assert_eq!(r.lookup_by_handle(10).map(|p| p.value), Some(1));
    assert_eq!(r.lookup_by_handle(20).map(|p| p.value), Some(2));
    assert!(r.contains_identifier(PlayerId { value: 1 }));
    assert!(!r.contains_identifier(PlayerId { value: 3 }));
}

#[test]
fn insert_never_overwrites() {
    let mut r = ConnectionRegistry::new();
    assert!(r.insert(PlayerId { value: 1 }, 10));
    // Same identity, other handle: refused.
    assert!(!r.insert(PlayerId { value: 1 }, 11));
    // Other identity, same handle: refused.
    assert!(!r.insert(PlayerId { value: 2 }, 10));
    assert_eq!(r.len(), 1);
    assert_eq!(r.lookup_by_identifier(PlayerId { value: 1 }), Some(10));
    assert!(r.lookup_by_identifier(PlayerId { value: 2 }).is_none());
}

#[test]
fn remove_by_identifier_reports_presence() {
    let mut r = ConnectionRegistry::new();
    assert!(r.insert(PlayerId { value: 1 }, 10));
    assert!(r.remove_by_identifier(PlayerId { value: 1 }));
    assert!(!r.remove_by_identifier(PlayerId { value: 1 }));
    assert_eq!(r.len(), 0);
    assert!(r.lookup_by_handle(10).is_none());
}

#[test]
fn pairs_enumerate_every_entry_once() {
    let mut r = ConnectionRegistry::new();
    assert!(r.insert(PlayerId { value: 1 }, 10));
    assert!(r.insert(PlayerId { value: 2 }, 20));
    assert!(r.insert(PlayerId { value: 3 }, 30));
    let mut pairs = r.pairs();
    pairs.sort();
    assert_eq!(pairs, vec![(1, 10), (2, 20), (3, 30)]);
}
