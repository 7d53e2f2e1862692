//! The router/factory registry: built once at startup from a seed list and
//! the interface cache, read-only afterwards.

use vstd::prelude::*;
use crate::address::{addr_eq, Address};
use crate::bytes::copy_range;
use crate::cache::{spec_cache_contains, spec_cache_lookup, CacheDecision, InterfaceCache};
use crate::interface::{spec_ifc_wf, spec_interface_of, ContractInterface, FormatError, OpV};

verus! {

/// A seed describing one factory contract.
#[derive(Debug)]
pub struct FactorySeed {
    pub address: Address,
    pub name: Vec<u8>,
    pub version: u8,
}

#[verifier::ext_equal]
pub struct FactorySeedV {
    pub address: Seq<u8>,
    pub name: Seq<u8>,
    pub version: u8,
}

impl View for FactorySeed {
    type V = FactorySeedV;

    open spec fn view(&self) -> FactorySeedV {
        FactorySeedV { address: self.address@, name: self.name@, version: self.version }
    }
}

/// A seed describing one router contract and the factories it delegates to.
#[derive(Debug)]
pub struct RouterSeed {
    pub address: Address,
    pub name: Vec<u8>,
    pub version: u8,
    pub factories: Vec<Address>,
}

#[verifier::ext_equal]
pub struct RouterSeedV {
    pub address: Seq<u8>,
    pub name: Seq<u8>,
    pub version: u8,
    pub factories: Seq<Seq<u8>>,
}

impl View for RouterSeed {
    type V = RouterSeedV;

    open spec fn view(&self) -> RouterSeedV {
        RouterSeedV {
            address: self.address@,
            name: self.name@,
            version: self.version,
            factories: self.factories@.map_values(|a: Address| a@),
        }
    }
}

/// The fixed seed list the registry is built from.
#[derive(Debug)]
pub struct SeedList {
    pub factories: Vec<FactorySeed>,
    pub routers: Vec<RouterSeed>,
}

#[verifier::ext_equal]
pub struct SeedListV {
    pub factories: Seq<FactorySeedV>,
    pub routers: Seq<RouterSeedV>,
}

impl View for SeedList {
    type V = SeedListV;

    open spec fn view(&self) -> SeedListV {
        SeedListV {
            factories: self.factories@.map_values(|f: FactorySeed| f@),
            routers: self.routers@.map_values(|r: RouterSeed| r@),
        }
    }
}

/// A resolved factory.
#[derive(Debug, PartialEq, Eq)]
pub struct Factory {
    pub address: Address,
    pub interface: ContractInterface,
    pub name: Vec<u8>,
    pub version: u8,
}

#[verifier::ext_equal]
pub struct FactoryV {
    pub address: Seq<u8>,
    pub interface: Seq<OpV>,
    pub name: Seq<u8>,
    pub version: u8,
}

impl View for Factory {
    type V = FactoryV;

    open spec fn view(&self) -> FactoryV {
        FactoryV {
            address: self.address@,
            interface: self.interface@,
            name: self.name@,
            version: self.version,
        }
    }
}

impl Factory {
    /// Copies the factory.
    pub fn dup(&self) -> (r: Factory)
        ensures
            r@ == self@,
    {
        let r = Factory {
            address: self.address.dup(),
            interface: self.interface.dup(),
            name: copy_range(self.name.as_slice(), 0, self.name.len()),
            version: self.version,
        };
        proof {
            assert(r@ =~= self@);
        }
        r
    }
}

/// A resolved router with the factories it delegates to.
#[derive(Debug, PartialEq, Eq)]
pub struct Router {
    pub address: Address,
    pub interface: ContractInterface,
    pub name: Vec<u8>,
    pub version: u8,
    pub factories: Vec<Factory>,
}

#[verifier::ext_equal]
pub struct RouterV {
    pub address: Seq<u8>,
    pub interface: Seq<OpV>,
    pub name: Seq<u8>,
    pub version: u8,
    pub factories: Seq<FactoryV>,
}

impl View for Router {
    type V = RouterV;

    open spec fn view(&self) -> RouterV {
        RouterV {
            address: self.address@,
            interface: self.interface@,
            name: self.name@,
            version: self.version,
            factories: self.factories@.map_values(|f: Factory| f@),
        }
    }
}

/// The registry: routers keyed by address, addresses unique.
#[derive(Debug, PartialEq, Eq)]
pub struct Registry {
    pub routers: Vec<Router>,
}

impl View for Registry {
    type V = Seq<RouterV>;

    open spec fn view(&self) -> Seq<RouterV> {
        self.routers@.map_values(|r: Router| r@)
    }
}

/// Why building the registry failed.
#[derive(Debug, PartialEq, Eq)]
pub enum BuildError {
    /// No cached record for this seed address: the upstream lookup is owed
    /// and had not been committed.
    Lookup(Address),
    /// The cached record for this seed address cannot be parsed.
    Format(Address, FormatError),
    /// A router seed references a factory address that no factory seed has.
    UnknownFactory(Address),
    /// Two router seeds share this address.
    DuplicateRouter(Address),
}

/// The interface the cache holds for `addr`, when a record exists and parses.
pub open spec fn spec_resolve_ifc(c: Seq<(Seq<u8>, Seq<u8>)>, addr: Seq<u8>) -> Option<Seq<OpV>> {
    match spec_cache_lookup(c, addr) {
        None => None,
        Some(raw) => spec_interface_of(raw),
    }
}

/// The factory a seed denotes, given the cache contents.
pub open spec fn spec_factory_of_seed(c: Seq<(Seq<u8>, Seq<u8>)>, fs: FactorySeedV) -> FactoryV {
    FactoryV {
        address: fs.address,
        interface: spec_resolve_ifc(c, fs.address)->0,
        name: fs.name,
        version: fs.version,
    }
}

/// Every factory seed resolves.
pub open spec fn spec_factories_ok(c: Seq<(Seq<u8>, Seq<u8>)>, fs: Seq<FactorySeedV>) -> bool {
    forall|i: int| 0 <= i < fs.len() ==> spec_resolve_ifc(c, (#[trigger] fs[i]).address) is Some
}

/// The resolved factory list, in seed order.
pub open spec fn spec_built_factories(c: Seq<(Seq<u8>, Seq<u8>)>, fs: Seq<FactorySeedV>) -> Seq<
    FactoryV,
> {
    fs.map_values(|f: FactorySeedV| spec_factory_of_seed(c, f))
}

/// First factory with the given address, as an index.
pub open spec fn spec_find_factory_from(fl: Seq<FactoryV>, addr: Seq<u8>, i: int) -> Option<int>
    decreases fl.len() - i,
{
    if i < 0 || i >= fl.len() {
        None
    } else if fl[i].address == addr {
        Some(i)
    } else {
        spec_find_factory_from(fl, addr, i + 1)
    }
}

pub open spec fn spec_find_factory(fl: Seq<FactoryV>, addr: Seq<u8>) -> Option<int> {
    spec_find_factory_from(fl, addr, 0)
}

/// A router seed resolves and all its factory references are known.
pub open spec fn spec_router_seed_ok(
    c: Seq<(Seq<u8>, Seq<u8>)>,
    fl: Seq<FactoryV>,
    rs: RouterSeedV,
) -> bool {
    spec_resolve_ifc(c, rs.address) is Some && (forall|k: int|
        0 <= k < rs.factories.len() ==> spec_find_factory(fl, #[trigger] rs.factories[k]) is Some)
}

/// The router a seed denotes, given the cache contents and the factory list.
pub open spec fn spec_router_of_seed(
    c: Seq<(Seq<u8>, Seq<u8>)>,
    fl: Seq<FactoryV>,
    rs: RouterSeedV,
) -> RouterV {
    RouterV {
        address: rs.address,
        interface: spec_resolve_ifc(c, rs.address)->0,
        name: rs.name,
        version: rs.version,
        factories: rs.factories.map_values(|a: Seq<u8>| fl[spec_find_factory(fl, a)->0]),
    }
}

/// No two router seeds share an address.
pub open spec fn spec_distinct_router_addrs(rs: Seq<RouterSeedV>) -> bool {
    forall|i: int, j: int|
        0 <= i < j < rs.len() ==> (#[trigger] rs[i]).address != (#[trigger] rs[j]).address
}

/// The whole seed list builds, given the cache contents.
pub open spec fn spec_build_ok(c: Seq<(Seq<u8>, Seq<u8>)>, s: SeedListV) -> bool {
    &&& spec_factories_ok(c, s.factories)
    &&& (forall|i: int|
        0 <= i < s.routers.len() ==> spec_router_seed_ok(
            c,
            spec_built_factories(c, s.factories),
            #[trigger] s.routers[i],
        ))
    &&& spec_distinct_router_addrs(s.routers)
}

/// The registry a seed list denotes, given the cache contents: a function of
/// the seed list and the cache contents alone.
pub open spec fn spec_registry_of(c: Seq<(Seq<u8>, Seq<u8>)>, s: SeedListV) -> Seq<RouterV> {
    s.routers.map_values(
        |rs: RouterSeedV| spec_router_of_seed(c, spec_built_factories(c, s.factories), rs),
    )
}

/// Registry well-formedness: unique router addresses, well-formed interfaces.
pub open spec fn spec_registry_wf(reg: Seq<RouterV>) -> bool {
    (forall|i: int, j: int|
        0 <= i < j < reg.len() ==> (#[trigger] reg[i]).address != (#[trigger] reg[j]).address)
        && (forall|i: int| 0 <= i < reg.len() ==> spec_ifc_wf((#[trigger] reg[i]).interface))
}

/// First router with the given address, as an index.
pub open spec fn spec_find_router_from(reg: Seq<RouterV>, addr: Seq<u8>, i: int) -> Option<int>
    decreases reg.len() - i,
{
    if i < 0 || i >= reg.len() {
        None
    } else if reg[i].address == addr {
        Some(i)
    } else {
        spec_find_router_from(reg, addr, i + 1)
    }
}

pub open spec fn spec_find_router(reg: Seq<RouterV>, addr: Seq<u8>) -> Option<int> {
    spec_find_router_from(reg, addr, 0)
}

/// Registry determinism: the registry built from equal seed lists and equal
/// cache contents is equal — building is a function of the two alone.
pub proof fn lemma_registry_determinism(
    c1: Seq<(Seq<u8>, Seq<u8>)>,
    c2: Seq<(Seq<u8>, Seq<u8>)>,
    s1: SeedListV,
    s2: SeedListV,
)
    requires
        c1 == c2,
        s1 == s2,
    ensures
        spec_build_ok(c1, s1) == spec_build_ok(c2, s2),
        spec_registry_of(c1, s1) == spec_registry_of(c2, s2),
{
}

fn find_factory(fl: &Vec<Factory>, addr: &Address) -> (r: Option<usize>)
    ensures
        match r {
            Some(i) => i < fl@.len() && spec_find_factory(
                fl@.map_values(|f: Factory| f@),
                addr@,
            ) == Some(i as int),
            None => spec_find_factory(fl@.map_values(|f: Factory| f@), addr@) is None,
        },
{
    let ghost m = fl@.map_values(|f: Factory| f@);
    let n = fl.len();
    let mut i: usize = 0;
    while i < n
        invariant
            n == fl@.len(),
            m == fl@.map_values(|f: Factory| f@),
            i <= n,
            spec_find_factory(m, addr@) == spec_find_factory_from(m, addr@, i as int),
        decreases n - i,
    {
        proof {
            assert(m[i as int] == (|f: Factory| f@)(fl@[i as int]));
        }
        if addr_eq(&fl[i].address, addr) {
            return Some(i);
        }
        i += 1;
    }
    None
}

impl Registry {
    pub open spec fn wf(&self) -> bool {
        spec_registry_wf(self@)
    }

    /// Index of the router at `addr`, if the registry has one.
    pub fn find_index(&self, addr: &Address) -> (r: Option<usize>)
        ensures
            match r {
                Some(i) => i < self.routers@.len() && spec_find_router(self@, addr@) == Some(
                    i as int,
                ),
                None => spec_find_router(self@, addr@) is None,
            },
    {
        let ghost m = self@;
        let n = self.routers.len();
        let mut i: usize = 0;
        while i < n
            invariant
                n == self.routers@.len(),
                m == self@,
                i <= n,
                spec_find_router(m, addr@) == spec_find_router_from(m, addr@, i as int),
            decreases n - i,
        {
            proof {
                assert(m[i as int] == (|r: Router| r@)(self.routers@[i as int]));
            }
            if addr_eq(&self.routers[i].address, addr) {
                return Some(i);
            }
            i += 1;
        }
        None
    }

    /// Builds the registry from the seed list and the cache contents: every
    /// seed interface comes from the cache, factory references are shared by
    /// address, and router addresses must be unique. Fail-fast: any
    /// unresolved or unparsable seed aborts the build.
    pub fn build(seeds: &SeedList, cache: &InterfaceCache) -> (r: Result<Registry, BuildError>)
        ensures
            r is Ok <==> spec_build_ok(cache@, seeds@),
            r is Ok ==> r->Ok_0@ == spec_registry_of(cache@, seeds@) && r->Ok_0.wf(),
            r is Err ==> match r->Err_0 {
                BuildError::Lookup(a) => !spec_cache_contains(cache@, a@),
                BuildError::Format(a, e) => spec_cache_lookup(cache@, a@) is Some
                    && spec_interface_of(spec_cache_lookup(cache@, a@)->0) is None,
                BuildError::UnknownFactory(a) => spec_find_factory(
                    spec_built_factories(cache@, seeds@.factories),
                    a@,
                ) is None,
                BuildError::DuplicateRouter(a) => exists|i: int, j: int|
                    0 <= i < j < seeds@.routers.len() && (#[trigger] seeds@.routers[i]).address
                        == (#[trigger] seeds@.routers[j]).address && seeds@.routers[i].address
                        == a@,
            },
    {
        let ghost cv = cache@;
        let ghost sv = seeds@;
        let mut factories: Vec<Factory> = Vec::new();
        let nf = seeds.factories.len();
        let mut i: usize = 0;
        while i < nf
            invariant
                nf == seeds.factories@.len(),
                cv == cache@,
                sv == seeds@,
                i <= nf,
                factories@.len() == i,
                forall|k: int|
                    0 <= k < i ==> spec_resolve_ifc(cv, (#[trigger] sv.factories[k]).address)
                        is Some,
                forall|k: int|
                    0 <= k < i ==> (#[trigger] factories@[k])@ == spec_factory_of_seed(
                        cv,
                        sv.factories[k],
                    ),
            decreases nf - i,
        {
            let fs = &seeds.factories[i];
            proof {
                assert(sv.factories[i as int] == (|f: FactorySeed| f@)(seeds.factories@[i as int]));
            }
            match cache.resolve_cached(&fs.address) {
                CacheDecision::Fetch => {
                    return Err(BuildError::Lookup(fs.address.dup()));
                },
                CacheDecision::Corrupt(e) => {
                    return Err(BuildError::Format(fs.address.dup(), e));
                },
                CacheDecision::Ready(ifc) => {
                    let f = Factory {
                        address: fs.address.dup(),
                        interface: ifc,
                        name: copy_range(fs.name.as_slice(), 0, fs.name.len()),
                        version: fs.version,
                    };
                    proof {
                        assert(f@ =~= spec_factory_of_seed(cv, sv.factories[i as int]));
                    }
                    factories.push(f);
                },
            }
            i += 1;
        }
        let ghost fl = spec_built_factories(cv, sv.factories);
        proof {
            assert(factories@.map_values(|f: Factory| f@) =~= fl);
        }
        let mut routers: Vec<Router> = Vec::new();
        let nr = seeds.routers.len();
        let mut j: usize = 0;
        while j < nr
            invariant
                nr == seeds.routers@.len(),
                cv == cache@,
                sv == seeds@,
                fl == spec_built_factories(cv, sv.factories),
                factories@.map_values(|f: Factory| f@) == fl,
                j <= nr,
                routers@.len() == j,
                forall|k: int|
                    0 <= k < j ==> spec_router_seed_ok(cv, fl, #[trigger] sv.routers[k]),
                forall|k: int|
                    0 <= k < j ==> (#[trigger] routers@[k])@ == spec_router_of_seed(
                        cv,
                        fl,
                        sv.routers[k],
                    ),
                forall|k: int| 0 <= k < j ==> spec_ifc_wf((#[trigger] routers@[k])@.interface),
                forall|p: int, q: int|
                    0 <= p < q < j ==> (#[trigger] sv.routers[p]).address != (
                    #[trigger] sv.routers[q]).address,
            decreases nr - j,
        {
            let rs = &seeds.routers[j];
            proof {
                assert(sv.routers[j as int] == (|r: RouterSeed| r@)(seeds.routers@[j as int]));
            }
            // reject a duplicate router address
            let mut d: usize = 0;
            while d < j
                invariant
                    nr == seeds.routers@.len(),
                    sv == seeds@,
                    j < nr,
                    d <= j,
                    routers@.len() == j,
                    forall|k: int|
                        0 <= k < j ==> (#[trigger] routers@[k])@ == spec_router_of_seed(
                            cv,
                            fl,
                            sv.routers[k],
                        ),
                    rs@ == sv.routers[j as int],
                    forall|k: int| 0 <= k < d ==> (#[trigger] sv.routers[k]).address != rs@.address,
                decreases j - d,
            {
                if addr_eq(&routers[d].address, &rs.address) {
                    proof {
                        assert(routers@[d as int]@ == spec_router_of_seed(
                            cv,
                            fl,
                            sv.routers[d as int],
                        ));
                        assert(sv.routers[d as int].address == rs@.address);
                    }
                    return Err(BuildError::DuplicateRouter(rs.address.dup()));
                }
                d += 1;
            }
            match cache.resolve_cached(&rs.address) {
                CacheDecision::Fetch => {
                    return Err(BuildError::Lookup(rs.address.dup()));
                },
                CacheDecision::Corrupt(e) => {
                    return Err(BuildError::Format(rs.address.dup(), e));
                },
                CacheDecision::Ready(ifc) => {
                    // resolve the factory references, shared by address
                    let mut refs: Vec<Factory> = Vec::new();
                    let nk = rs.factories.len();
                    let mut k: usize = 0;
                    while k < nk
                        invariant
                            cv == cache@,
                            sv == seeds@,
                            nr == seeds.routers@.len(),
                            j < nr,
                            nk == rs.factories@.len(),
                            rs@ == sv.routers[j as int],
                            fl == spec_built_factories(cv, sv.factories),
                            factories@.map_values(|f: Factory| f@) == fl,
                            k <= nk,
                            refs@.len() == k,
                            forall|m: int|
                                0 <= m < k ==> spec_find_factory(
                                    fl,
                                    #[trigger] rs@.factories[m],
                                ) is Some,
                            forall|m: int|
                                0 <= m < k ==> (#[trigger] refs@[m])@ == fl[spec_find_factory(
                                    fl,
                                    rs@.factories[m],
                                )->0],
                        decreases nk - k,
                    {
                        proof {
                            assert(rs@.factories[k as int] == (|a: Address| a@)(
                                rs.factories@[k as int],
                            ));
                        }
                        match find_factory(&factories, &rs.factories[k]) {
                            None => {
                                return Err(BuildError::UnknownFactory(rs.factories[k].dup()));
                            },
                            Some(fi) => {
                                refs.push(factories[fi].dup());
                                proof {
                                    assert(factories@.map_values(|f: Factory| f@)[fi as int]
                                        == factories@[fi as int]@);
                                }
                            },
                        }
                        k += 1;
                    }
                    let router = Router {
                        address: rs.address.dup(),
                        interface: ifc,
                        name: copy_range(rs.name.as_slice(), 0, rs.name.len()),
                        version: rs.version,
                        factories: refs,
                    };
                    proof {
                        let spv = spec_router_of_seed(cv, fl, sv.routers[j as int]);
                        assert(router@.factories =~= spv.factories);
                        assert(router@ =~= spv);
                    }
                    routers.push(router);
                },
            }
            j += 1;
        }
        let reg = Registry { routers };
        proof {
            assert(reg@ =~= spec_registry_of(cv, sv));
            assert forall|p: int, q: int| 0 <= p < q < reg@.len() implies (#[trigger] reg@[p]).address
                != (#[trigger] reg@[q]).address by {
                assert(reg@[p].address == sv.routers[p].address);
                assert(reg@[q].address == sv.routers[q].address);
            }
            assert forall|p: int| 0 <= p < reg@.len() implies spec_ifc_wf(
                (#[trigger] reg@[p]).interface,
            ) by {
                assert(reg@[p] == routers@[p]@);
                assert(spec_ifc_wf(routers@[p]@.interface));
            }
        }
        Ok(reg)
    }
}

} // verus!
