//! The catalog of monitoring events per processor vendor and
//! microarchitecture, and the lookup of the events that a node calls for.
use crate::inventories::StrOrFloat;
use crate::text::str_eq;
use vstd::prelude::*;
use vstd::std_specs::iter::IteratorSpec;
use vstd::std_specs::slice::axiom_spec_slice_iter;

verus! {

#[derive(Debug, PartialEq, Eq)]
pub struct HwpcEvents {
    pub rapl: Vec<String>,
    pub msr: Vec<String>,
    pub core: Vec<String>,
}

#[derive(Debug, PartialEq, Eq)]
pub struct PerfEvents(pub Vec<String>);

impl PerfEvents {
    pub fn iter(&self) -> (r: std::slice::Iter<'_, String>)
        ensures
            r.remaining() == self.0@.as_ref(),
    {
        broadcast use axiom_spec_slice_iter;

        self.0.as_slice().iter()
    }
}

pub struct MicroarchitectureEvents {
    pub name: String,
    pub versions: Vec<StrOrFloat>,
    pub perf_specific_events: PerfEvents,
    pub hwpc_specific_events: HwpcEvents,
}

pub struct VendorEvents {
    pub name: String,
    pub microarchitectures: Vec<MicroarchitectureEvents>,
    pub perf_default_events: PerfEvents,
    pub hwpc_default_events: HwpcEvents,
}

pub struct EventsByVendor {
    pub vendors: Vec<VendorEvents>,
}

/// Some string of `v` reads `x`.
pub open spec fn holds(v: Seq<String>, x: Seq<char>) -> bool {
    exists|i: int| 0 <= i < v.len() && #[trigger] v[i]@ == x
}

/// No two strings of `v` read the same.
pub open spec fn distinct(v: Seq<String>) -> bool {
    forall|i: int, j: int| 0 <= i < j < v.len() ==> #[trigger] v[i]@ != #[trigger] v[j]@
}

/// Position of the first vendor named `name`.
pub open spec fn first_vendor(vs: Seq<VendorEvents>, name: Seq<char>) -> Option<int>
    decreases vs.len(),
{
    if vs.len() == 0 {
        None
    } else {
        match first_vendor(vs.drop_last(), name) {
            Some(i) => Some(i),
            None => if vs.last().name@ == name {
                Some(vs.len() - 1)
            } else {
                None
            },
        }
    }
}

pub open spec fn micro_matches(m: MicroarchitectureEvents, name: Seq<char>, version: StrOrFloat) -> bool {
    m.name@ == name && exists|k: int| 0 <= k < m.versions@.len() && (#[trigger] m.versions@[k]).same(version)
}

/// Position of the first microarchitecture named `name` that lists `version`.
pub open spec fn first_micro(ms: Seq<MicroarchitectureEvents>, name: Seq<char>, version: StrOrFloat) -> Option<int>
    decreases ms.len(),
{
    if ms.len() == 0 {
        None
    } else {
        match first_micro(ms.drop_last(), name, version) {
            Some(i) => Some(i),
            None => if micro_matches(ms.last(), name, version) {
                Some(ms.len() - 1)
            } else {
                None
            },
        }
    }
}

proof fn lemma_first_vendor_bounds(vs: Seq<VendorEvents>, name: Seq<char>)
    ensures
        first_vendor(vs, name) matches Some(i) ==> 0 <= i < vs.len() && vs[i].name@ == name,
    decreases vs.len(),
{
    if vs.len() > 0 {
        lemma_first_vendor_bounds(vs.drop_last(), name);
    }
}

proof fn lemma_first_micro_bounds(ms: Seq<MicroarchitectureEvents>, name: Seq<char>, version: StrOrFloat)
    ensures
        first_micro(ms, name, version) matches Some(i) ==> 0 <= i < ms.len(),
    decreases ms.len(),
{
    if ms.len() > 0 {
        lemma_first_micro_bounds(ms.drop_last(), name, version);
    }
}

impl EventsByVendor {
    /// Whether `x` is among the events that the lookup gives: the vendor's
    /// defaults (picked by `dflt`) and, when the microarchitecture with that
    /// version is listed, its specific events (picked by `spec_of`). An unknown
    /// vendor gives no event.
    pub open spec fn selects(
        &self,
        vendor: Seq<char>,
        micro: Seq<char>,
        version: StrOrFloat,
        dflt: spec_fn(VendorEvents) -> Seq<String>,
        spec_of: spec_fn(MicroarchitectureEvents) -> Seq<String>,
        x: Seq<char>,
    ) -> bool {
        match first_vendor(self.vendors@, vendor) {
            None => false,
            Some(vi) => {
                let v = self.vendors@[vi];
                holds(dflt(v), x) || match first_micro(v.microarchitectures@, micro, version) {
                    Some(mi) => holds(spec_of(v.microarchitectures@[mi]), x),
                    None => false,
                }
            },
        }
    }

    /// The perf and HWPC events for a node: each list holds, once each, the
    /// vendor's default events and those specific to the node's
    /// microarchitecture and version.
    pub fn get_events(&self, vendor_name: &str, microarchitecture_name: &str, version: &StrOrFloat) -> (r: (
        PerfEvents,
        HwpcEvents,
    ))
        ensures
            distinct(r.0.0@),
            distinct(r.1.rapl@),
            distinct(r.1.msr@),
            distinct(r.1.core@),
            forall|x: Seq<char>|
                holds(r.0.0@, x) <==> self.selects(
                    vendor_name@,
                    microarchitecture_name@,
                    *version,
                    |v: VendorEvents| v.perf_default_events.0@,
                    |m: MicroarchitectureEvents| m.perf_specific_events.0@,
                    x,
                ),
            forall|x: Seq<char>|
                holds(r.1.rapl@, x) <==> self.selects(
                    vendor_name@,
                    microarchitecture_name@,
                    *version,
                    |v: VendorEvents| v.hwpc_default_events.rapl@,
                    |m: MicroarchitectureEvents| m.hwpc_specific_events.rapl@,
                    x,
                ),
            forall|x: Seq<char>|
                holds(r.1.msr@, x) <==> self.selects(
                    vendor_name@,
                    microarchitecture_name@,
                    *version,
                    |v: VendorEvents| v.hwpc_default_events.msr@,
                    |m: MicroarchitectureEvents| m.hwpc_specific_events.msr@,
                    x,
                ),
            forall|x: Seq<char>|
                holds(r.1.core@, x) <==> self.selects(
                    vendor_name@,
                    microarchitecture_name@,
                    *version,
                    |v: VendorEvents| v.hwpc_default_events.core@,
                    |m: MicroarchitectureEvents| m.hwpc_specific_events.core@,
                    x,
                ),
    {
        let mut perf: Vec<String> = Vec::new();
        let mut rapl: Vec<String> = Vec::new();
        let mut msr: Vec<String> = Vec::new();
        let mut core: Vec<String> = Vec::new();
        match find_vendor(&self.vendors, vendor_name) {
            None => {},
            Some(vi) => {
                proof {
                    lemma_first_vendor_bounds(self.vendors@, vendor_name@);
                }
                let v = &self.vendors[vi];
                match find_micro(&v.microarchitectures, microarchitecture_name, version) {
                    Some(mi) => {
                        proof {
                            lemma_first_micro_bounds(v.microarchitectures@, microarchitecture_name@, *version);
                        }
                        let m = &v.microarchitectures[mi];
                        add_missing(&mut perf, &m.perf_specific_events.0);
                        add_missing(&mut rapl, &m.hwpc_specific_events.rapl);
                        add_missing(&mut msr, &m.hwpc_specific_events.msr);
                        add_missing(&mut core, &m.hwpc_specific_events.core);
                    },
                    None => {},
                }
                add_missing(&mut perf, &v.perf_default_events.0);
                add_missing(&mut rapl, &v.hwpc_default_events.rapl);
                add_missing(&mut msr, &v.hwpc_default_events.msr);
                add_missing(&mut core, &v.hwpc_default_events.core);
            },
        }
        (PerfEvents(perf), HwpcEvents { rapl, msr, core })
    }
}

fn find_vendor(vs: &Vec<VendorEvents>, name: &str) -> (r: Option<usize>)
    ensures
        r matches Some(i) ==> first_vendor(vs@, name@) == Some(i as int),
        r is None ==> first_vendor(vs@, name@) is None,
{
    let mut i: usize = 0;
    while i < vs.len()
        invariant
            i <= vs.len(),
            first_vendor(vs@.subrange(0, i as int), name@) is None,
        decreases vs.len() - i,
    {
        proof {
            assert(vs@.subrange(0, i + 1).drop_last() =~= vs@.subrange(0, i as int));
        }
        if str_eq(vs[i].name.as_str(), name) {
            proof {
                lemma_first_prefix_vendor(vs@, name@, i + 1);
            }
            return Some(i);
        }
        i = i + 1;
    }
    proof {
        assert(vs@.subrange(0, vs@.len() as int) =~= vs@);
    }
    None
}

/// A match found in a prefix stays the first match of the whole sequence.
proof fn lemma_first_prefix_vendor(vs: Seq<VendorEvents>, name: Seq<char>, n: int)
    requires
        0 <= n <= vs.len(),
        first_vendor(vs.subrange(0, n), name) is Some,
    ensures
        first_vendor(vs, name) == first_vendor(vs.subrange(0, n), name),
    decreases vs.len() - n,
{
    if n < vs.len() {
        assert(vs.subrange(0, n + 1).drop_last() =~= vs.subrange(0, n));
        lemma_first_prefix_vendor(vs, name, n + 1);
    } else {
        assert(vs.subrange(0, n) =~= vs);
    }
}

proof fn lemma_first_prefix_micro(ms: Seq<MicroarchitectureEvents>, name: Seq<char>, version: StrOrFloat, n: int)
    requires
        0 <= n <= ms.len(),
        first_micro(ms.subrange(0, n), name, version) is Some,
    ensures
        first_micro(ms, name, version) == first_micro(ms.subrange(0, n), name, version),
    decreases ms.len() - n,
{
    if n < ms.len() {
        assert(ms.subrange(0, n + 1).drop_last() =~= ms.subrange(0, n));
        lemma_first_prefix_micro(ms, name, version, n + 1);
    } else {
        assert(ms.subrange(0, n) =~= ms);
    }
}

fn lists_version(versions: &Vec<StrOrFloat>, version: &StrOrFloat) -> (r: bool)
    ensures
        r == exists|k: int| 0 <= k < versions@.len() && (#[trigger] versions@[k]).same(*version),
{
    let mut k: usize = 0;
    while k < versions.len()
        invariant
            k <= versions.len(),
            forall|j: int| 0 <= j < k ==> !(#[trigger] versions@[j]).same(*version),
        decreases versions.len() - k,
    {
        if versions[k].same_as(version) {
            return true;
        }
        k = k + 1;
    }
    false
}

fn find_micro(ms: &Vec<MicroarchitectureEvents>, name: &str, version: &StrOrFloat) -> (r: Option<usize>)
    ensures
        r matches Some(i) ==> first_micro(ms@, name@, *version) == Some(i as int),
        r is None ==> first_micro(ms@, name@, *version) is None,
{
    let mut i: usize = 0;
    while i < ms.len()
        invariant
            i <= ms.len(),
            first_micro(ms@.subrange(0, i as int), name@, *version) is None,
        decreases ms.len() - i,
    {
        proof {
            assert(ms@.subrange(0, i + 1).drop_last() =~= ms@.subrange(0, i as int));
        }
        if str_eq(ms[i].name.as_str(), name) && lists_version(&ms[i].versions, version) {
            proof {
                lemma_first_prefix_micro(ms@, name@, *version, i + 1);
            }
            return Some(i);
        }
        i = i + 1;
    }
    proof {
        assert(ms@.subrange(0, ms@.len() as int) =~= ms@);
    }
    None
}

fn position_of(v: &Vec<String>, x: &str) -> (r: Option<usize>)
    ensures
        r matches Some(i) ==> i < v@.len() && v@[i as int]@ == x@,
        r is None ==> !holds(v@, x@),
{
    let mut i: usize = 0;
    while i < v.len()
        invariant
            i <= v.len(),
            forall|j: int| 0 <= j < i ==> (#[trigger] v@[j])@ != x@,
        decreases v.len() - i,
    {
        if str_eq(v[i].as_str(), x) {
            return Some(i);
        }
        i = i + 1;
    }
    None
}

/// Appends the strings of `src` that `dst` does not hold yet.
fn add_missing(dst: &mut Vec<String>, src: &Vec<String>)
    requires
        distinct(old(dst)@),
    ensures
        distinct(final(dst)@),
        forall|x: Seq<char>| holds(final(dst)@, x) <==> (holds(old(dst)@, x) || holds(src@, x)),
{
    let ghost start = dst@;
    let mut i: usize = 0;
    while i < src.len()
        invariant
            i <= src.len(),
            distinct(dst@),
            forall|x: Seq<char>|
                holds(dst@, x) <==> (holds(start, x) || holds(src@.subrange(0, i as int), x)),
        decreases src.len() - i,
    {
        let s = &src[i];
        let ghost before = dst@;
        let found = position_of(dst, s.as_str());
        if found.is_none() {
            dst.push(s.clone());
            proof {
                assert forall|a: int, b: int| 0 <= a < b < dst@.len() implies #[trigger] dst@[a]@
                    != #[trigger] dst@[b]@ by {
                    if b == before.len() {
                        assert(dst@[a] == before[a]);
                    } else {
                        assert(dst@[a] == before[a] && dst@[b] == before[b]);
                    }
                }
            }
        }
        proof {
            let p = src@.subrange(0, i + 1);
            let q = src@.subrange(0, i as int);
            assert(p[i as int] == src@[i as int]);
            assert(holds(dst@, src@[i as int]@)) by {
                if found.is_none() {
                    assert(dst@[before.len() as int] == src@[i as int]);
                } else {
                    let j = found.unwrap();
                    assert(dst@[j as int]@ == src@[i as int]@);
                }
            }
            assert forall|x: Seq<char>| holds(before, x) implies holds(dst@, x) by {
                let k = choose|k: int| 0 <= k < before.len() && #[trigger] before[k]@ == x;
                assert(dst@[k] == before[k]);
            }
            assert forall|x: Seq<char>| holds(dst@, x) implies holds(before, x) || x == src@[i as int]@ by {
                let k = choose|k: int| 0 <= k < dst@.len() && #[trigger] dst@[k]@ == x;
                if k < before.len() {
                    assert(dst@[k] == before[k]);
                }
            }
            assert forall|x: Seq<char>| holds(p, x) <==> (holds(q, x) || x == src@[i as int]@) by {
                if holds(p, x) {
                    let k = choose|k: int| 0 <= k < p.len() && #[trigger] p[k]@ == x;
                    if k < i {
                        assert(q[k] == p[k]);
                    }
                }
                if holds(q, x) {
                    let k = choose|k: int| 0 <= k < q.len() && #[trigger] q[k]@ == x;
                    assert(p[k] == q[k]);
                }
                if x == src@[i as int]@ {
                    assert(p[i as int]@ == x);
                }
            }
            assert forall|x: Seq<char>| holds(dst@, x) <==> (holds(start, x) || holds(p, x)) by {
                assert(holds(before, x) <==> (holds(start, x) || holds(q, x)));
            }
        }
        i = i + 1;
    }
    proof {
        assert(src@.subrange(0, src@.len() as int) =~= src@);
    }
}

} // verus!
