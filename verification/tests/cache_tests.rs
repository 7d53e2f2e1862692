use dexwatch::address::Address;
use dexwatch::cache::{CacheDecision, CacheEntry, InterfaceCache};
use dexwatch::interface::FormatError;

fn addr(last: u8) -> Address {
    let mut b = vec![0u8; 20];
    b[19] = last;
    Address::from_bytes(b).unwrap()
}

#[test]
fn miss_then_commit_then_hit() {
    // cache idempotence scenario: the first resolve of a cold address
    // demands a fetch; after the fetched record is committed, a second
    // resolve is answered from the cache with byte-identical data.
    let mut cache = InterfaceCache::new();
    let a = addr(7);
    let text = b"swapExactETHForTokens(uint256,address[],address,uint256)".to_vec();

    match cache.resolve_cached(&a) {
        CacheDecision::Fetch => {}
        other => panic!("expected a fetch on a cold address, got {:?}", other),
    }

    let ifc = cache.commit(addr(7), text.clone()).unwrap();

    match cache.resolve_cached(&a) {
        CacheDecision::Ready(ifc2) => assert_eq!(ifc2, ifc),
        other => panic!("expected a cache hit, got {:?}", other),
    }
    // byte-identical stored data, no second fetch
    assert_eq!(cache.lookup(&a), Some(text));
}

#[test]
fn commit_rejects_unparsable_record() {
    let mut cache = InterfaceCache::new();
    let a = addr(9);
    let err = cache.commit(addr(9), b"not a signature!".to_vec()).unwrap_err();
    assert_eq!(err, FormatError::Syntax);
    // nothing was persisted
    assert_eq!(cache.lookup(&a), None);
    // a good record can still be committed afterwards
    assert!(cache.commit(addr(9), b"noArgs()".to_vec()).is_ok());
    assert!(cache.lookup(&a).is_some());
}

#[test]
fn corrupt_stored_record_is_reported() {
    let cache = InterfaceCache {
        entries: vec![CacheEntry {
            address: addr(3),
            data: b"garbage bytes".to_vec(),
        }],
    };
    match cache.resolve_cached(&addr(3)) {
        CacheDecision::Corrupt(e) => assert_eq!(e, FormatError::Syntax),
        other => panic!("expected a corrupt record, got {:?}", other),
    }
}

#[test]
fn lookup_misses_other_addresses() {
    let mut cache = InterfaceCache::new();
    cache.commit(addr(1), b"noArgs()".to_vec()).unwrap();
    assert_eq!(cache.lookup(&addr(2)), None);
    assert!(cache.lookup(&addr(1)).is_some());
}
