//! The stream pump's per-event decision logic: skip an already-evicted body,
//! classify a delivered one, and say which outcomes go to the sink. The
//! subscription loop itself lives with the caller; one event's outcome never
//! depends on another event.

use vstd::prelude::*;
use crate::classify::{classify, spec_classify, ClassV, Classification, PendingTransaction, TxV};
use crate::registry::{Registry, RouterV};

verus! {

/// The outcome of one feed event.
#[derive(Debug, PartialEq, Eq)]
pub enum PumpOutcome {
    /// The transaction body was already gone: skipped silently.
    Skipped,
    /// The body was classified.
    Classified(Classification),
}

#[verifier::ext_equal]
pub enum PumpV {
    Skipped,
    Classified(ClassV),
}

impl View for PumpOutcome {
    type V = PumpV;

    open spec fn view(&self) -> PumpV {
        match self {
            PumpOutcome::Skipped => PumpV::Skipped,
            PumpOutcome::Classified(c) => PumpV::Classified(c@),
        }
    }
}

/// The body the feed delivered for one event, if it was still available.
pub open spec fn spec_body_view(b: Option<PendingTransaction>) -> Option<TxV> {
    match b {
        None => None,
        Some(t) => Some(t@),
    }
}

/// What one feed event yields: a skip for an evicted body, otherwise the
/// classification of the delivered body — a function of that event alone.
pub open spec fn spec_pump_step(b: Option<TxV>, reg: Seq<RouterV>, interest: Seq<Seq<u8>>) -> PumpV {
    match b {
        None => PumpV::Skipped,
        Some(tx) => PumpV::Classified(spec_classify(tx, reg, interest)),
    }
}

/// Handles one feed event.
pub fn pump_step(body: Option<&PendingTransaction>, reg: &Registry, interest: &Vec<Vec<u8>>) -> (r:
    PumpOutcome)
    ensures
        r@ == spec_pump_step(
            match body {
                None => None,
                Some(t) => Some(t@),
            },
            reg@,
            interest@.map_values(|s: Vec<u8>| s@),
        ),
{
    match body {
        None => PumpOutcome::Skipped,
        Some(tx) => PumpOutcome::Classified(classify(tx, reg, interest)),
    }
}

/// True for the outcomes the pump forwards to the sink: everything but a
/// miss.
pub fn should_emit(c: &Classification) -> (r: bool)
    ensures
        r <==> !(c@ is NoMatch),
{
    match c {
        Classification::NoMatch(_) => false,
        _ => true,
    }
}

/// Processes a sequence of feed events in order; each event's outcome is
/// the pump step on that event alone.
pub fn process_batch(
    bodies: &Vec<Option<PendingTransaction>>,
    reg: &Registry,
    interest: &Vec<Vec<u8>>,
) -> (r: Vec<PumpOutcome>)
    ensures
        r@.len() == bodies@.len(),
        forall|i: int|
            0 <= i < bodies@.len() ==> (#[trigger] r@[i])@ == spec_pump_step(
                spec_body_view(bodies@[i]),
                reg@,
                interest@.map_values(|s: Vec<u8>| s@),
            ),
{
    let n = bodies.len();
    let mut out: Vec<PumpOutcome> = Vec::new();
    let mut i: usize = 0;
    while i < n
        invariant
            n == bodies@.len(),
            i <= n,
            out@.len() == i,
            forall|k: int|
                0 <= k < i ==> (#[trigger] out@[k])@ == spec_pump_step(
                    spec_body_view(bodies@[k]),
                    reg@,
                    interest@.map_values(|s: Vec<u8>| s@),
                ),
        decreases n - i,
    {
        let step = match &bodies[i] {
            None => pump_step(None, reg, interest),
            Some(tx) => pump_step(Some(tx), reg, interest),
        };
        out.push(step);
        i += 1;
    }
    out
}

/// Fault isolation: in two feeds that agree everywhere but at one position,
/// every other event's outcome is identical — one malformed transaction
/// never disturbs the processing of the events around it.
pub proof fn lemma_fault_isolation(
    b1: Seq<Option<TxV>>,
    b2: Seq<Option<TxV>>,
    reg: Seq<RouterV>,
    interest: Seq<Seq<u8>>,
    f: int,
)
    requires
        b1.len() == b2.len(),
        forall|i: int| 0 <= i < b1.len() && i != f ==> (#[trigger] b1[i]) == b2[i],
    ensures
        forall|i: int|
            0 <= i < b1.len() && i != f ==> spec_pump_step(#[trigger] b1[i], reg, interest)
                == spec_pump_step(b2[i], reg, interest),
{
}

} // verus!
