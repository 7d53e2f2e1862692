use dexwatch::address::Address;
use dexwatch::cache::{CacheEntry, InterfaceCache};
use dexwatch::interface::FormatError;
use dexwatch::registry::{BuildError, FactorySeed, Registry, RouterSeed, SeedList};

const SWAP_SIG: &[u8] = b"swapExactETHForTokens(uint256,address[],address,uint256)";
const PAIR_SIG: &[u8] = b"createPair(address,address)";

fn addr(last: u8) -> Address {
    let mut b = vec![0u8; 20];
    b[19] = last;
    Address::from_bytes(b).unwrap()
}

fn seeded_cache() -> InterfaceCache {
    let mut cache = InterfaceCache::new();
    cache.commit(addr(1), PAIR_SIG.to_vec()).unwrap();
    cache.commit(addr(2), SWAP_SIG.to_vec()).unwrap();
    cache.commit(addr(3), SWAP_SIG.to_vec()).unwrap();
    cache
}

fn seeds() -> SeedList {
    SeedList {
        factories: vec![FactorySeed {
            address: addr(1),
            name: b"PairFactory".to_vec(),
            version: 2,
        }],
        routers: vec![
            RouterSeed {
                address: addr(2),
                name: b"RouterOne".to_vec(),
                version: 2,
                factories: vec![addr(1)],
            },
            RouterSeed {
                address: addr(3),
                name: b"RouterTwo".to_vec(),
                version: 2,
                factories: vec![addr(1)],
            },
        ],
    }
}

#[test]
fn build_shares_factories_by_address() {
    let cache = seeded_cache();
    let reg = Registry::build(&seeds(), &cache).unwrap();
    assert_eq!(reg.routers.len(), 2);
    // both routers reference the one resolved factory
    assert_eq!(reg.routers[0].factories.len(), 1);
    assert_eq!(reg.routers[1].factories.len(), 1);
    assert_eq!(reg.routers[0].factories[0], reg.routers[1].factories[0]);
    assert_eq!(reg.routers[0].factories[0].address, addr(1));
    assert_eq!(reg.routers[0].name, b"RouterOne".to_vec());
    assert_eq!(reg.find_index(&addr(3)), Some(1));
    assert_eq!(reg.find_index(&addr(9)), None);
}

#[test]
fn build_is_deterministic() {
    // the same seed list and the same cache contents give the same registry
    let cache = seeded_cache();
    let first = Registry::build(&seeds(), &cache).unwrap();
    let second = Registry::build(&seeds(), &cache).unwrap();
    assert_eq!(first, second);
}

#[test]
fn build_fails_fast_on_missing_record() {
    let mut cache = InterfaceCache::new();
    cache.commit(addr(1), PAIR_SIG.to_vec()).unwrap();
    cache.commit(addr(2), SWAP_SIG.to_vec()).unwrap();
    // addr(3) unresolved
    assert_eq!(
        Registry::build(&seeds(), &cache),
        Err(BuildError::Lookup(addr(3)))
    );
}

#[test]
fn build_fails_on_corrupt_record() {
    let mut cache = InterfaceCache::new();
    cache.entries.push(CacheEntry {
        address: addr(1),
        data: b"###".to_vec(),
    });
    cache.commit(addr(2), SWAP_SIG.to_vec()).unwrap();
    cache.commit(addr(3), SWAP_SIG.to_vec()).unwrap();
    assert_eq!(
        Registry::build(&seeds(), &cache),
        Err(BuildError::Format(addr(1), FormatError::Syntax))
    );
}

#[test]
fn build_fails_on_unknown_factory() {
    let cache = seeded_cache();
    let mut s = seeds();
    s.routers[1].factories = vec![addr(8)];
    assert_eq!(
        Registry::build(&s, &cache),
        Err(BuildError::UnknownFactory(addr(8)))
    );
}

#[test]
fn build_fails_on_duplicate_router() {
    let cache = seeded_cache();
    let mut s = seeds();
    s.routers[1].address = addr(2);
    assert_eq!(
        Registry::build(&s, &cache),
        Err(BuildError::DuplicateRouter(addr(2)))
    );
}
