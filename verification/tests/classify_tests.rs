use dexwatch::address::Address;
use dexwatch::cache::InterfaceCache;
use dexwatch::classify::{classify, Classification, MissReason, Observation, PendingTransaction};
use dexwatch::codec::AbiValue;
use dexwatch::pump::{process_batch, pump_step, should_emit, PumpOutcome};
use dexwatch::registry::{FactorySeed, Registry, RouterSeed, SeedList};

const SWAP_SIG: &[u8] = b"swapExactETHForTokens(uint256,address[],address,uint256)";
const SWAP_SELECTOR: [u8; 4] = [0x7f, 0xf3, 0x6a, 0xb5];
const TOKEN_SWAP_SIG: &[u8] = b"swapExactTokensForETH(uint256,uint256,address[],address,uint256)";
const TOKEN_SWAP_SELECTOR: [u8; 4] = [0x18, 0xcb, 0xaf, 0xe5];

fn addr(last: u8) -> Address {
    let mut b = vec![0u8; 20];
    b[19] = last;
    Address::from_bytes(b).unwrap()
}

fn word(v: u32) -> Vec<u8> {
    let mut w = vec![0u8; 28];
    w.extend_from_slice(&v.to_be_bytes());
    w
}

fn addr_word(a: &Address) -> Vec<u8> {
    let mut w = vec![0u8; 12];
    w.extend_from_slice(&a.bytes);
    w
}

fn registry() -> Registry {
    let mut cache = InterfaceCache::new();
    cache
        .commit(addr(1), b"createPair(address,address)".to_vec())
        .unwrap();
    let mut router_ifc = SWAP_SIG.to_vec();
    router_ifc.push(b'\n');
    router_ifc.extend_from_slice(TOKEN_SWAP_SIG);
    router_ifc.extend_from_slice(b"\nwithdraw(uint256)");
    cache.commit(addr(2), router_ifc).unwrap();
    let seeds = SeedList {
        factories: vec![FactorySeed {
            address: addr(1),
            name: b"PairFactory".to_vec(),
            version: 2,
        }],
        routers: vec![RouterSeed {
            address: addr(2),
            name: b"MainRouter".to_vec(),
            version: 2,
            factories: vec![addr(1)],
        }],
    };
    Registry::build(&seeds, &cache).unwrap()
}

fn interest() -> Vec<Vec<u8>> {
    vec![SWAP_SELECTOR.to_vec(), TOKEN_SWAP_SELECTOR.to_vec()]
}

/// selector + (uint256 5, address[] [a(11), a(12)], address a(13), uint256 1000)
fn swap_input() -> Vec<u8> {
    let mut d = SWAP_SELECTOR.to_vec();
    d.extend_from_slice(&word(5));
    d.extend_from_slice(&word(128)); // offset of the array, from after the selector
    d.extend_from_slice(&addr_word(&addr(13)));
    d.extend_from_slice(&word(1000));
    d.extend_from_slice(&word(2)); // array length
    d.extend_from_slice(&addr_word(&addr(11)));
    d.extend_from_slice(&addr_word(&addr(12)));
    d
}

fn tx(dest: Option<Address>, input: Vec<u8>) -> PendingTransaction {
    PendingTransaction {
        hash: vec![0xaa; 32],
        destination: dest,
        input,
    }
}

#[test]
fn contract_creation_is_no_match() {
    // an absent destination never reaches decoding
    let r = classify(&tx(None, swap_input()), &registry(), &interest());
    assert_eq!(r, Classification::NoMatch(MissReason::NoDestination));
}

#[test]
fn unknown_destination_is_no_match() {
    // valid swap call data, but the destination is no registered router
    let r = classify(&tx(Some(addr(9)), swap_input()), &registry(), &interest());
    assert_eq!(r, Classification::NoMatch(MissReason::UnknownRouter));
}

#[test]
fn truncated_input_is_no_match() {
    let reg = registry();
    let r = classify(&tx(Some(addr(2)), vec![0x18, 0xcb, 0xaf]), &reg, &interest());
    assert_eq!(r, Classification::NoMatch(MissReason::ShortInput));
    let r2 = classify(&tx(Some(addr(2)), vec![]), &reg, &interest());
    assert_eq!(r2, Classification::NoMatch(MissReason::ShortInput));
}

#[test]
fn unknown_selector_on_known_router_is_no_match() {
    let mut d = vec![0xde, 0xad, 0xbe, 0xef];
    d.extend_from_slice(&word(5));
    let r = classify(&tx(Some(addr(2)), d), &registry(), &interest());
    assert_eq!(r, Classification::NoMatch(MissReason::UnknownSelector));
}

#[test]
fn declared_but_uninteresting_selector_is_no_match() {
    // withdraw(uint256) is declared on the router but not of interest;
    // its selector is the well-known 0x2e1a7d4d
    let mut d = vec![0x2e, 0x1a, 0x7d, 0x4d];
    d.extend_from_slice(&word(5));
    let r = classify(&tx(Some(addr(2)), d), &registry(), &interest());
    assert_eq!(r, Classification::NoMatch(MissReason::UnknownSelector));
}

#[test]
fn end_to_end_swap_detection() {
    // seeded router, matching selector, valid parameters: a full observation
    let r = classify(&tx(Some(addr(2)), swap_input()), &registry(), &interest());
    let expected = Observation {
        router_name: b"MainRouter".to_vec(),
        operation_name: b"swapExactETHForTokens".to_vec(),
        parameters: vec![
            AbiValue::Uint(word(5)),
            AbiValue::AddrList(vec![addr(11), addr(12)]),
            AbiValue::Addr(addr(13)),
            AbiValue::Uint(word(1000)),
        ],
        tx_hash: vec![0xaa; 32],
    };
    assert_eq!(r, Classification::Match(expected));
}

#[test]
fn selector_18cbafe5_decodes_against_declaring_router() {
    // call data whose selector equals 0x18cbafe5, against a router whose
    // interface declares an operation with that exact selector: a
    // successful decode, not a miss
    let mut d = TOKEN_SWAP_SELECTOR.to_vec();
    d.extend_from_slice(&word(7));
    d.extend_from_slice(&word(3));
    d.extend_from_slice(&word(160)); // offset of the array, after five head words
    d.extend_from_slice(&addr_word(&addr(13)));
    d.extend_from_slice(&word(1000));
    d.extend_from_slice(&word(2));
    d.extend_from_slice(&addr_word(&addr(11)));
    d.extend_from_slice(&addr_word(&addr(12)));
    let r = classify(&tx(Some(addr(2)), d), &registry(), &interest());
    let expected = Observation {
        router_name: b"MainRouter".to_vec(),
        operation_name: b"swapExactTokensForETH".to_vec(),
        parameters: vec![
            AbiValue::Uint(word(7)),
            AbiValue::Uint(word(3)),
            AbiValue::AddrList(vec![addr(11), addr(12)]),
            AbiValue::Addr(addr(13)),
            AbiValue::Uint(word(1000)),
        ],
        tx_hash: vec![0xaa; 32],
    };
    assert_eq!(r, Classification::Match(expected));
}

#[test]
fn malformed_parameters_fail_decoding() {
    // matching selector, but the array offset word is not a small word
    let mut d = swap_input();
    d[4 + 32] = 1; // corrupt the offset word's leading byte
    let r = classify(&tx(Some(addr(2)), d), &registry(), &interest());
    assert_eq!(
        r,
        Classification::Failed(dexwatch::codec::DecodeError)
    );
}

#[test]
fn truncated_tail_fails_decoding() {
    // drop the last array element: the length word now overruns the data
    let mut d = swap_input();
    d.truncate(d.len() - 32);
    let r = classify(&tx(Some(addr(2)), d), &registry(), &interest());
    assert_eq!(r, Classification::Failed(dexwatch::codec::DecodeError));
}

#[test]
fn pump_skips_evicted_bodies() {
    let reg = registry();
    let r = pump_step(None, &reg, &interest());
    assert_eq!(r, PumpOutcome::Skipped);
}

#[test]
fn one_malformed_transaction_does_not_disturb_the_rest() {
    // a feed where exactly one body has malformed parameters: every other
    // event still classifies as it would alone
    let reg = registry();
    let mut bad = swap_input();
    bad[4 + 32] = 1;
    let bodies = vec![
        Some(tx(Some(addr(2)), swap_input())),
        Some(tx(Some(addr(2)), bad)),
        None,
        Some(tx(Some(addr(2)), swap_input())),
        Some(tx(None, swap_input())),
    ];
    let outcomes = process_batch(&bodies, &reg, &interest());
    assert_eq!(outcomes.len(), 5);
    assert!(matches!(&outcomes[0], PumpOutcome::Classified(Classification::Match(_))));
    assert!(matches!(&outcomes[1], PumpOutcome::Classified(Classification::Failed(_))));
    assert_eq!(outcomes[2], PumpOutcome::Skipped);
    assert!(matches!(&outcomes[3], PumpOutcome::Classified(Classification::Match(_))));
    assert!(matches!(
        &outcomes[4],
        PumpOutcome::Classified(Classification::NoMatch(MissReason::NoDestination))
    ));
    // the two good swaps decode identically
    assert_eq!(outcomes[0], outcomes[3]);
    // only non-miss outcomes go to the sink
    match (&outcomes[0], &outcomes[1], &outcomes[4]) {
        (
            PumpOutcome::Classified(good),
            PumpOutcome::Classified(failed),
            PumpOutcome::Classified(miss),
        ) => {
            assert!(should_emit(good));
            assert!(should_emit(failed));
            assert!(!should_emit(miss));
        }
        _ => panic!("unexpected outcome shapes"),
    }
}

#[test]
fn hex_address_parsing() {
    let a = Address::from_hex(b"0x5C69bEe701ef814a2B6a3EDD4B1652CB9cc5aA6f").unwrap();
    assert_eq!(a.bytes[0], 0x5c);
    assert_eq!(a.bytes[19], 0x6f);
    assert_eq!(Address::from_hex(b"0x5C69"), None);
    assert_eq!(
        Address::from_hex(b"0x5C69bEe701ef814a2B6a3EDD4B1652CB9cc5aAzz"),
        None
    );
}
