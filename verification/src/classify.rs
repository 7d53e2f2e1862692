//! The classifier: match a pending transaction's destination against the
//! registry, its leading four call-data bytes against the selectors of
//! interest, and decode the remaining bytes against the matched operation's
//! schema.

use vstd::prelude::*;
use crate::address::Address;
use crate::bytes::{bytes_eq, copy_range};
use crate::codec::{decode_params, spec_decode_ok, spec_decoded, AbiValue, DecodeError, ValueV};
use crate::interface::{spec_distinct_selectors, spec_find_op, spec_find_op_from, OpV};
use crate::registry::{spec_find_router, Registry, Router, RouterV};

verus! {

/// A pending transaction as the feed hands it over: hash, optional
/// destination (absent for contract creation), raw call data.
#[derive(Debug)]
pub struct PendingTransaction {
    pub hash: Vec<u8>,
    pub destination: Option<Address>,
    pub input: Vec<u8>,
}

#[verifier::ext_equal]
pub struct TxV {
    pub hash: Seq<u8>,
    pub destination: Option<Seq<u8>>,
    pub input: Seq<u8>,
}

impl View for PendingTransaction {
    type V = TxV;

    open spec fn view(&self) -> TxV {
        TxV {
            hash: self.hash@,
            destination: match self.destination {
                None => None,
                Some(a) => Some(a@),
            },
            input: self.input@,
        }
    }
}

/// A detected operation of interest.
#[derive(Debug, PartialEq, Eq)]
pub struct Observation {
    pub router_name: Vec<u8>,
    pub operation_name: Vec<u8>,
    pub parameters: Vec<AbiValue>,
    pub tx_hash: Vec<u8>,
}

#[verifier::ext_equal]
pub struct ObsV {
    pub router_name: Seq<u8>,
    pub operation_name: Seq<u8>,
    pub parameters: Seq<ValueV>,
    pub tx_hash: Seq<u8>,
}

impl View for Observation {
    type V = ObsV;

    open spec fn view(&self) -> ObsV {
        ObsV {
            router_name: self.router_name@,
            operation_name: self.operation_name@,
            parameters: self.parameters@.map_values(|v: AbiValue| v@),
            tx_hash: self.tx_hash@,
        }
    }
}

/// Why a transaction matched nothing.
#[derive(Clone, Copy, Debug, PartialEq, Eq, Structural)]
pub enum MissReason {
    /// No destination: a contract-creation transaction.
    NoDestination,
    /// The destination is not a registered router.
    UnknownRouter,
    /// Call data shorter than a selector.
    ShortInput,
    /// The selector is not an operation of interest on this router.
    UnknownSelector,
}

/// The outcome of classifying one transaction.
#[derive(Debug, PartialEq, Eq)]
pub enum Classification {
    Match(Observation),
    NoMatch(MissReason),
    Failed(DecodeError),
}

#[verifier::ext_equal]
pub enum ClassV {
    Match(ObsV),
    NoMatch(MissReason),
    Failed,
}

impl View for Classification {
    type V = ClassV;

    open spec fn view(&self) -> ClassV {
        match self {
            Classification::Match(o) => ClassV::Match(o@),
            Classification::NoMatch(m) => ClassV::NoMatch(*m),
            Classification::Failed(_) => ClassV::Failed,
        }
    }
}

/// What classifying `tx` against `reg` and the selectors of interest yields.
pub open spec fn spec_classify(tx: TxV, reg: Seq<RouterV>, interest: Seq<Seq<u8>>) -> ClassV {
    match tx.destination {
        None => ClassV::NoMatch(MissReason::NoDestination),
        Some(d) => match spec_find_router(reg, d) {
            None => ClassV::NoMatch(MissReason::UnknownRouter),
            Some(ri) => {
                let router = reg[ri];
                if tx.input.len() < 4 {
                    ClassV::NoMatch(MissReason::ShortInput)
                } else {
                    let sel = tx.input.take(4);
                    if !interest.contains(sel) {
                        ClassV::NoMatch(MissReason::UnknownSelector)
                    } else {
                        match spec_find_op(router.interface, sel) {
                            None => ClassV::NoMatch(MissReason::UnknownSelector),
                            Some(oi) => {
                                let op = router.interface[oi];
                                let tail = tx.input.skip(4);
                                if spec_decode_ok(op.params, tail) {
                                    ClassV::Match(
                                        ObsV {
                                            router_name: router.name,
                                            operation_name: op.name,
                                            parameters: spec_decoded(op.params, tail),
                                            tx_hash: tx.hash,
                                        },
                                    )
                                } else {
                                    ClassV::Failed
                                }
                            },
                        }
                    }
                }
            },
        },
    }
}

fn selector_in_interest(interest: &Vec<Vec<u8>>, sel: &[u8]) -> (r: bool)
    ensures
        r <==> interest@.map_values(|s: Vec<u8>| s@).contains(sel@),
{
    let ghost m = interest@.map_values(|s: Vec<u8>| s@);
    let n = interest.len();
    let mut i: usize = 0;
    while i < n
        invariant
            n == interest@.len(),
            m == interest@.map_values(|s: Vec<u8>| s@),
            i <= n,
            forall|k: int| 0 <= k < i ==> m[k] != sel@,
        decreases n - i,
    {
        proof {
            assert(m[i as int] == (|s: Vec<u8>| s@)(interest@[i as int]));
        }
        if bytes_eq(interest[i].as_slice(), sel) {
            proof {
                assert(m.contains(sel@));
            }
            return true;
        }
        i += 1;
    }
    proof {
        if m.contains(sel@) {
            let k = choose|k: int| 0 <= k < m.len() && m[k] == sel@;
            assert(false);
        }
    }
    false
}

/// Classifies one pending transaction against the registry and the fixed
/// selectors of interest.
pub fn classify(tx: &PendingTransaction, reg: &Registry, interest: &Vec<Vec<u8>>) -> (r:
    Classification)
    ensures
        r@ == spec_classify(tx@, reg@, interest@.map_values(|s: Vec<u8>| s@)),
{
    match &tx.destination {
        None => Classification::NoMatch(MissReason::NoDestination),
        Some(d) => {
            match reg.find_index(d) {
                None => Classification::NoMatch(MissReason::UnknownRouter),
                Some(ri) => {
                    let router = &reg.routers[ri];
                    proof {
                        assert(reg@[ri as int] == (|r: Router| r@)(reg.routers@[ri as int]));
                    }
                    if tx.input.len() < 4 {
                        Classification::NoMatch(MissReason::ShortInput)
                    } else {
                        let sel = copy_range(tx.input.as_slice(), 0, 4);
                        proof {
                            assert(sel@ =~= tx@.input.take(4));
                        }
                        if !selector_in_interest(interest, sel.as_slice()) {
                            Classification::NoMatch(MissReason::UnknownSelector)
                        } else {
                            match router.interface.find_op_idx(sel.as_slice()) {
                                None => Classification::NoMatch(MissReason::UnknownSelector),
                                Some(oi) => {
                                    let op = &router.interface.ops[oi];
                                    proof {
                                        assert(router@.interface[oi as int] == (|o: crate::interface::Operation| o@)(
                                        router.interface.ops@[oi as int]));
                                    }
                                    let tail = copy_range(
                                        tx.input.as_slice(),
                                        4,
                                        tx.input.len(),
                                    );
                                    proof {
                                        assert(tail@ =~= tx@.input.skip(4));
                                    }
                                    match decode_params(op.params.as_slice(), tail.as_slice()) {
                                        Err(e) => Classification::Failed(e),
                                        Ok(vals) => {
                                            let obs = Observation {
                                                router_name: copy_range(
                                                    router.name.as_slice(),
                                                    0,
                                                    router.name.len(),
                                                ),
                                                operation_name: copy_range(
                                                    op.name.as_slice(),
                                                    0,
                                                    op.name.len(),
                                                ),
                                                parameters: vals,
                                                tx_hash: copy_range(
                                                    tx.hash.as_slice(),
                                                    0,
                                                    tx.hash.len(),
                                                ),
                                            };
                                            proof {
                                                assert(obs@ =~= ObsV {
                                                    router_name: router@.name,
                                                    operation_name: router@.interface[
                                                        oi as int].name,
                                                    parameters: spec_decoded(
                                                        router@.interface[oi as int].params,
                                                        tx@.input.skip(4),
                                                    ),
                                                    tx_hash: tx@.hash,
                                                });
                                            }
                                            Classification::Match(obs)
                                        },
                                    }
                                },
                            }
                        }
                    }
                },
            }
        },
    }
}

proof fn lemma_find_op_first(ops: Seq<OpV>, sel: Seq<u8>, j: int, i: int)
    requires
        spec_distinct_selectors(ops),
        0 <= j <= i < ops.len(),
        ops[i].selector == sel,
    ensures
        spec_find_op_from(ops, sel, j) == Some(i),
    decreases i - j,
{
    if j < i {
        assert(ops[j].selector != ops[i].selector);
        lemma_find_op_first(ops, sel, j + 1, i);
    }
}

/// Selector exactness: among operations with pairwise-distinct selectors —
/// as every well-formed interface has, so operations with different
/// parameter schemas are never conflated — dispatch picks exactly the
/// operation carrying the input's selector, never another.
pub proof fn lemma_selector_exactness(ops: Seq<OpV>, sel: Seq<u8>, i: int)
    requires
        spec_distinct_selectors(ops),
        0 <= i < ops.len(),
        ops[i].selector == sel,
    ensures
        spec_find_op(ops, sel) == Some(i),
{
    lemma_find_op_first(ops, sel, 0, i);
}

/// Unknown destination: a transaction whose destination is no registered
/// router classifies as a routing miss, whatever its call data.
pub proof fn lemma_unknown_destination(tx: TxV, reg: Seq<RouterV>, interest: Seq<Seq<u8>>)
    requires
        tx.destination is Some,
        spec_find_router(reg, tx.destination->0) is None,
    ensures
        spec_classify(tx, reg, interest) == ClassV::NoMatch(MissReason::UnknownRouter),
{
}

/// Contract creation: a transaction without a destination classifies as a
/// miss — never a decode attempt.
pub proof fn lemma_contract_creation(tx: TxV, reg: Seq<RouterV>, interest: Seq<Seq<u8>>)
    requires
        tx.destination is None,
    ensures
        spec_classify(tx, reg, interest) == ClassV::NoMatch(MissReason::NoDestination),
{
}

/// Truncated input: call data shorter than four bytes never decodes and
/// never fails decoding — it classifies as a miss.
pub proof fn lemma_truncated_input(tx: TxV, reg: Seq<RouterV>, interest: Seq<Seq<u8>>)
    requires
        tx.input.len() < 4,
    ensures
        spec_classify(tx, reg, interest) is NoMatch,
{
}

} // verus!
