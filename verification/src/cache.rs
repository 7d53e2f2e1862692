//! The interface cache: an address-keyed, write-once store of raw interface
//! text. The durable store and the upstream lookup live outside; this module
//! holds the resolve decision and the write-once invariant.

use vstd::prelude::*;
use crate::address::Address;
use crate::bytes::{bytes_eq, copy_range};
use crate::interface::{
    spec_interface_of, spec_parse_interface_text, ContractInterface, FormatError,
};

verus! {

/// One durable record: raw interface text stored under an address.
#[derive(Debug)]
pub struct CacheEntry {
    pub address: Address,
    pub data: Vec<u8>,
}

impl View for CacheEntry {
    type V = (Seq<u8>, Seq<u8>);

    open spec fn view(&self) -> (Seq<u8>, Seq<u8>) {
        (self.address@, self.data@)
    }
}

/// The cache contents: address-keyed raw records, each address at most once.
#[derive(Debug)]
pub struct InterfaceCache {
    pub entries: Vec<CacheEntry>,
}

impl View for InterfaceCache {
    type V = Seq<(Seq<u8>, Seq<u8>)>;

    open spec fn view(&self) -> Seq<(Seq<u8>, Seq<u8>)> {
        self.entries@.map_values(|e: CacheEntry| e@)
    }
}

/// The record stored under `addr` at or after position `i`.
pub open spec fn spec_cache_lookup_from(
    c: Seq<(Seq<u8>, Seq<u8>)>,
    addr: Seq<u8>,
    i: int,
) -> Option<Seq<u8>>
    decreases c.len() - i,
{
    if i < 0 || i >= c.len() {
        None
    } else if c[i].0 == addr {
        Some(c[i].1)
    } else {
        spec_cache_lookup_from(c, addr, i + 1)
    }
}

/// The record stored under `addr`, if any.
pub open spec fn spec_cache_lookup(c: Seq<(Seq<u8>, Seq<u8>)>, addr: Seq<u8>) -> Option<Seq<u8>> {
    spec_cache_lookup_from(c, addr, 0)
}

/// True when some record is stored under `addr`.
pub open spec fn spec_cache_contains(c: Seq<(Seq<u8>, Seq<u8>)>, addr: Seq<u8>) -> bool {
    spec_cache_lookup(c, addr) is Some
}

/// Write-once: each address keys at most one record.
pub open spec fn spec_cache_wf(c: Seq<(Seq<u8>, Seq<u8>)>) -> bool {
    forall|i: int, j: int| 0 <= i < j < c.len() ==> (#[trigger] c[i]).0 != (#[trigger] c[j]).0
}

/// A lookup that finds nothing from `i` on means no entry there carries `addr`.
pub proof fn lemma_lookup_none_all(c: Seq<(Seq<u8>, Seq<u8>)>, addr: Seq<u8>, i: int)
    requires
        0 <= i <= c.len(),
        spec_cache_lookup_from(c, addr, i) is None,
    ensures
        forall|k: int| i <= k < c.len() ==> (#[trigger] c[k]).0 != addr,
    decreases c.len() - i,
{
    if i < c.len() {
        lemma_lookup_none_all(c, addr, i + 1);
    }
}

/// Looking up `addr` after appending a record for `addr` to contents that
/// lacked one finds exactly the appended record.
pub proof fn lemma_lookup_after_push(c: Seq<(Seq<u8>, Seq<u8>)>, addr: Seq<u8>, raw: Seq<u8>, i: int)
    requires
        0 <= i <= c.len(),
        forall|k: int| i <= k < c.len() ==> (#[trigger] c[k]).0 != addr,
    ensures
        spec_cache_lookup_from(c.push((addr, raw)), addr, i) == Some(raw),
    decreases c.len() - i,
{
    let c2 = c.push((addr, raw));
    if i < c.len() {
        assert(c2[i] == c[i]);
        lemma_lookup_after_push(c, addr, raw, i + 1);
    } else {
        assert(c2[i] == (addr, raw));
    }
}

/// Cache idempotence: once a miss on `addr` has been filled with `raw`, a
/// second resolve of `addr` is answered from the cache — no further upstream
/// fetch — with byte-identical data, and the write-once invariant still holds.
pub proof fn lemma_cache_idempotence(c: Seq<(Seq<u8>, Seq<u8>)>, addr: Seq<u8>, raw: Seq<u8>)
    requires
        spec_cache_wf(c),
        !spec_cache_contains(c, addr),
    ensures
        spec_cache_lookup(c.push((addr, raw)), addr) == Some(raw),
        spec_cache_wf(c.push((addr, raw))),
{
    lemma_lookup_none_all(c, addr, 0);
    lemma_lookup_after_push(c, addr, raw, 0);
    let c2 = c.push((addr, raw));
    assert forall|i: int, j: int| 0 <= i < j < c2.len() implies (#[trigger] c2[i]).0 != (
    #[trigger] c2[j]).0 by {
        if j < c.len() {
            assert(c2[i] == c[i] && c2[j] == c[j]);
        } else {
            assert(c2[j] == (addr, raw));
            assert(c2[i] == c[i]);
        }
    }
}

/// What one resolve attempt against the durable contents yields.
#[derive(Debug)]
pub enum CacheDecision {
    /// A record was found and parses: the interface, with no upstream fetch.
    Ready(ContractInterface),
    /// A record was found but cannot be parsed back into an interface.
    Corrupt(FormatError),
    /// No record: the caller must fetch from upstream and then `commit`.
    Fetch,
}

impl InterfaceCache {
    /// Each address keys at most one record.
    pub open spec fn wf(&self) -> bool {
        spec_cache_wf(self@)
    }

    /// An empty cache.
    pub fn new() -> (r: InterfaceCache)
        ensures
            r@ == Seq::<(Seq<u8>, Seq<u8>)>::empty(),
            r.wf(),
    {
        let r = InterfaceCache { entries: Vec::new() };
        proof {
            assert(r@ =~= Seq::<(Seq<u8>, Seq<u8>)>::empty());
        }
        r
    }

    /// The raw record stored under `addr`, if any.
    pub fn lookup(&self, addr: &Address) -> (r: Option<Vec<u8>>)
        ensures
            r is Some <==> spec_cache_contains(self@, addr@),
            r is Some ==> Some(r->0@) == spec_cache_lookup(self@, addr@),
    {
        let n = self.entries.len();
        let mut i: usize = 0;
        while i < n
            invariant
                n == self.entries@.len(),
                i <= n,
                spec_cache_lookup(self@, addr@) == spec_cache_lookup_from(self@, addr@, i as int),
            decreases n - i,
        {
            proof {
                assert(self@[i as int] == (|e: CacheEntry| e@)(self.entries@[i as int]));
            }
            if bytes_eq(self.entries[i].address.bytes.as_slice(), addr.bytes.as_slice()) {
                let d = &self.entries[i].data;
                return Some(copy_range(d.as_slice(), 0, d.len()));
            }
            i += 1;
        }
        None
    }

    /// Decides one resolve attempt: answer from the stored record, report it
    /// corrupt, or require an upstream fetch — exactly when no record exists.
    pub fn resolve_cached(&self, addr: &Address) -> (r: CacheDecision)
        ensures
            match r {
                CacheDecision::Fetch => !spec_cache_contains(self@, addr@),
                CacheDecision::Ready(ifc) => {
                    let lk = spec_cache_lookup(self@, addr@);
                    lk is Some && spec_interface_of(lk->0) == Some(ifc@) && ifc.wf()
                },
                CacheDecision::Corrupt(e) => {
                    let lk = spec_cache_lookup(self@, addr@);
                    lk is Some && spec_interface_of(lk->0) is None && (e == FormatError::Syntax
                        <==> spec_parse_interface_text(lk->0) is None)
                },
            },
    {
        match self.lookup(addr) {
            None => CacheDecision::Fetch,
            Some(raw) => match ContractInterface::parse(raw.as_slice()) {
                Ok(ifc) => CacheDecision::Ready(ifc),
                Err(e) => CacheDecision::Corrupt(e),
            },
        }
    }

    /// Commits a freshly fetched raw record for an address that has no record
    /// yet (write-once). The record is persisted only if it parses; a record
    /// that does not parse is rejected with the parse failure and the cache
    /// is left unchanged.
    pub fn commit(&mut self, addr: Address, raw: Vec<u8>) -> (r: Result<
        ContractInterface,
        FormatError,
    >)
        requires
            old(self).wf(),
            !spec_cache_contains(old(self)@, addr@),
        ensures
            final(self).wf(),
            r is Ok <==> spec_interface_of(raw@) is Some,
            r is Ok ==> final(self)@ == old(self)@.push((addr@, raw@)) && r->Ok_0@
                == spec_interface_of(raw@)->0 && spec_cache_lookup(final(self)@, addr@) == Some(
                raw@,
            ),
            r is Err ==> final(self)@ == old(self)@ && (r->Err_0 == FormatError::Syntax
                <==> spec_parse_interface_text(raw@) is None),
    {
        match ContractInterface::parse(raw.as_slice()) {
            Ok(ifc) => {
                proof {
                    lemma_cache_idempotence(self@, addr@, raw@);
                }
                let ghost oldv = self@;
                self.entries.push(CacheEntry { address: addr, data: raw });
                proof {
                    assert(self@ =~= oldv.push((self.entries@[oldv.len() as int].address@,
                    self.entries@[oldv.len() as int].data@)));
                }
                Ok(ifc)
            },
            Err(e) => Err(e),
        }
    }
}

} // verus!
