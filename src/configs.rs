//! Configurations of the HWPC sensor, and the synthetic core counts that
//! parametrise each node's benchmark.
use crate::events::HwpcEvents;
use crate::text::{decimal, decimal_string, str_eq};
use rand::Rng;
use std::collections::HashMap;
use vstd::prelude::*;
use vstd::string::StringExecFns;

verus! {

broadcast use vstd::std_specs::hash::group_hash_axioms;

pub struct HwpcConfig {
    pub name: String,
    pub verbose: bool,
    pub cgroup_basepath: String,
    pub frequency: u32,
    pub output: HwpcOutput,
    pub system: HwpcSystem,
}

pub struct HwpcOutput {
    /// The output format.
    pub kind: String,
}

pub struct HwpcSystem {
    pub rapl: HwpcSystemRapl,
    pub msr: HwpcSystemMsr,
    pub core: HwpcSystemCore,
}

pub struct HwpcSystemRapl {
    pub events: Vec<String>,
    pub monitoring_type: String,
}

pub struct HwpcSystemMsr {
    pub events: Vec<String>,
}

pub struct HwpcSystemCore {
    pub events: Vec<String>,
}

/// OS image whose cgroup hierarchy is unified.
pub const UNIFIED_CGROUP_FLAVOR: &'static str = "ubuntu2404-nfs";

pub open spec fn cgroup_basepath_for(os_flavor: Seq<char>) -> Seq<char> {
    if os_flavor == UNIFIED_CGROUP_FLAVOR@ {
        "/sys/fs/cgroup"@
    } else {
        "/sys/fs/cgroup/perf_event"@
    }
}

impl HwpcSystem {
    /// The system section monitors exactly the given events.
    pub open spec fn monitors(self, events: HwpcEvents) -> bool {
        &&& self.rapl.events@ == events.rapl@
        &&& self.rapl.monitoring_type@ == "MONITOR_ONE_CPU_PER_SOCKET"@
        &&& self.msr.events@ == events.msr@
        &&& self.core.events@ == events.core@
    }
}

fn clone_strings(v: &Vec<String>) -> (r: Vec<String>)
    ensures
        r@ == v@,
{
    let mut r: Vec<String> = Vec::new();
    let mut i: usize = 0;
    while i < v.len()
        invariant
            i <= v.len(),
            r@ == v@.subrange(0, i as int),
        decreases v.len() - i,
    {
        r.push(v[i].clone());
        i = i + 1;
        assert(r@ =~= v@.subrange(0, i as int));
    }
    assert(v@.subrange(0, v@.len() as int) =~= v@);
    r
}

fn events_of(system: &HwpcSystem) -> (r: HwpcEvents)
    ensures
        r.rapl@ == system.rapl.events@,
        r.msr@ == system.msr.events@,
        r.core@ == system.core.events@,
{
    HwpcEvents {
        rapl: clone_strings(&system.rapl.events),
        msr: clone_strings(&system.msr.events),
        core: clone_strings(&system.core.events),
    }
}

/// The system section of a sensor configuration for the given events.
pub fn build_hwpc_system(hwpc_events: &HwpcEvents) -> (r: HwpcSystem)
    ensures
        r.monitors(*hwpc_events),
{
    HwpcSystem {
        rapl: HwpcSystemRapl {
            events: clone_strings(&hwpc_events.rapl),
            monitoring_type: "MONITOR_ONE_CPU_PER_SOCKET".to_owned(),
        },
        msr: HwpcSystemMsr { events: clone_strings(&hwpc_events.msr) },
        core: HwpcSystemCore { events: clone_strings(&hwpc_events.core) },
    }
}

/// A verbose sensor configuration named `name`, sampling at 1000 Hz into CSV,
/// with the cgroup root that the OS image uses.
pub fn build_hwpc_config(name: String, system: HwpcSystem, os_flavor: &str) -> (r: HwpcConfig)
    ensures
        r.name == name,
        r.verbose,
        r.cgroup_basepath@ == cgroup_basepath_for(os_flavor@),
        r.frequency == 1000,
        r.output.kind@ == "csv"@,
        r.system == system,
{
    let cgroup_basepath = if str_eq(os_flavor, UNIFIED_CGROUP_FLAVOR) {
        "/sys/fs/cgroup"
    } else {
        "/sys/fs/cgroup/perf_event"
    };
    HwpcConfig {
        name,
        verbose: true,
        cgroup_basepath: cgroup_basepath.to_owned(),
        frequency: 1000,
        output: HwpcOutput { kind: "csv".to_owned() },
        system,
    }
}

pub open spec fn sensor_name(prefix: Seq<char>, core_value: u32) -> Seq<char> {
    prefix + "_sensor_"@ + decimal(core_value as nat)
}

/// One sensor configuration per core value, keyed by it, named
/// `<prefix>_sensor_<core value>`.
pub fn generate_hwpc_configs(hwpc_events: &HwpcEvents, core_values: &[u32], prefix: &str, os_flavor: &str) -> (r:
    HashMap<u32, HwpcConfig>)
    ensures
        r@.dom() == core_values@.to_set(),
        forall|v: u32|
            #[trigger] r@.contains_key(v) ==> {
                let c = r@[v];
                &&& c.name@ == sensor_name(prefix@, v)
                &&& c.verbose
                &&& c.cgroup_basepath@ == cgroup_basepath_for(os_flavor@)
                &&& c.frequency == 1000
                &&& c.output.kind@ == "csv"@
                &&& c.system.monitors(*hwpc_events)
            },
{
    let hwpc_system = build_hwpc_system(hwpc_events);
    let mut r: HashMap<u32, HwpcConfig> = HashMap::new();
    let mut i: usize = 0;
    while i < core_values.len()
        invariant
            i <= core_values@.len(),
            hwpc_system.monitors(*hwpc_events),
            r@.dom() == core_values@.subrange(0, i as int).to_set(),
            forall|v: u32|
                #[trigger] r@.contains_key(v) ==> {
                    let c = r@[v];
                    &&& c.name@ == sensor_name(prefix@, v)
                    &&& c.verbose
                    &&& c.cgroup_basepath@ == cgroup_basepath_for(os_flavor@)
                    &&& c.frequency == 1000
                    &&& c.output.kind@ == "csv"@
                    &&& c.system.monitors(*hwpc_events)
                },
        decreases core_values.len() - i,
    {
        let v = core_values[i];
        let mut name = prefix.to_owned();
        name.append("_sensor_");
        let digits = decimal_string(v as u64);
        name.append(digits.as_str());
        let events = events_of(&hwpc_system);
        let system = build_hwpc_system(&events);
        let config = build_hwpc_config(name, system, os_flavor);
        r.insert(v, config);
        proof {
            assert(core_values@.subrange(0, i + 1) =~= core_values@.subrange(0, i as int).push(v));
            core_values@.subrange(0, i as int).lemma_push_to_set_commute(v);
        }
        i = i + 1;
    }
    proof {
        assert(core_values@.subrange(0, core_values@.len() as int) =~= core_values@);
    }
    r
}

// ---------------------------------------------------------------- core values

pub open spec fn is_pow2(v: nat) -> bool
    decreases v,
{
    if v == 0 {
        false
    } else if v == 1 {
        true
    } else {
        v % 2 == 0 && is_pow2(v / 2)
    }
}

fn power_of_two(v: u32) -> (r: bool)
    ensures
        r == is_pow2(v as nat),
{
    if v == 0 {
        return false;
    }
    let mut x: u32 = v;
    while x > 1
        invariant
            x >= 1,
            is_pow2(x as nat) == is_pow2(v as nat),
        decreases x,
    {
        if x % 2 != 0 {
            return false;
        }
        x = x / 2;
    }
    true
}

/// A core value that a draw may give: at least 2, at most `max`, and not a
/// power of two.
pub open spec fn drawable(v: nat, max: nat) -> bool {
    2 <= v <= max && !is_pow2(v)
}

/// Number of drawable values below `bound` (exclusive), counting from 2.
pub open spec fn drawable_below(bound: nat, max: nat) -> nat
    decreases bound,
{
    if bound <= 2 {
        0
    } else {
        drawable_below((bound - 1) as nat, max) + if drawable((bound - 1) as nat, max) {
            1nat
        } else {
            0nat
        }
    }
}

proof fn lemma_drawable_below_grows(a: nat, b: nat, max: nat)
    requires
        a <= b,
    ensures
        drawable_below(a, max) <= drawable_below(b, max),
    decreases b - a,
{
    if a < b {
        lemma_drawable_below_grows(a, (b - 1) as nat, max);
    }
}

/// Relies on `rand::Rng::gen_range` over `thread_rng`: a value of the
/// inclusive range `[low, high]`, which must not be empty.
#[verifier::external_body]
fn draw(low: u32, high: u32) -> (r: u32)
    requires
        low <= high,
    ensures
        low <= r <= high,
{
    rand::thread_rng().gen_range(low..=high)
}

/// Number of `true` flags in `s`.
pub open spec fn trues(s: Seq<bool>) -> nat
    decreases s.len(),
{
    if s.len() == 0 {
        0
    } else {
        trues(s.drop_last()) + if s.last() {
            1nat
        } else {
            0nat
        }
    }
}

proof fn lemma_trues_set(s: Seq<bool>, k: int)
    requires
        0 <= k < s.len(),
        !s[k],
    ensures
        trues(s.update(k, true)) == trues(s) + 1,
    decreases s.len(),
{
    if k == s.len() - 1 {
        assert(s.update(k, true).drop_last() =~= s.drop_last());
    } else {
        lemma_trues_set(s.drop_last(), k);
        assert(s.update(k, true).drop_last() =~= s.drop_last().update(k, true));
    }
}

proof fn lemma_trues_step(s: Seq<bool>, i: int)
    requires
        0 <= i < s.len(),
    ensures
        trues(s.subrange(0, i + 1)) == trues(s.subrange(0, i)) + if s[i] {
            1nat
        } else {
            0nat
        },
{
    assert(s.subrange(0, i + 1).drop_last() =~= s.subrange(0, i));
}

proof fn lemma_trues_prefix(s: Seq<bool>, i: int)
    requires
        0 <= i <= s.len(),
    ensures
        trues(s.subrange(0, i)) <= trues(s),
    decreases s.len() - i,
{
    if i < s.len() {
        lemma_trues_step(s, i);
        lemma_trues_prefix(s, i + 1);
    } else {
        assert(s.subrange(0, i) =~= s);
    }
}

/// Number of drawable values for `max`: the ranks of the drawable values
/// run from 0 up to it, exclusive.
pub fn drawable_count(max: u32) -> (r: u32)
    ensures
        r == drawable_below(max as nat + 1, max as nat),
{
    let mut total: u32 = 0;
    let mut v: u64 = 2;
    while v <= max as u64
        invariant
            2 <= v <= max as u64 + 1 || (v == 2 && max < 2),
            total == drawable_below(v as nat, max as nat),
            total + 2 <= v,
        decreases max as u64 + 1 - v,
    {
        proof {
            assert(drawable_below(v as nat + 1, max as nat) == drawable_below(v as nat, max as nat)
                + if drawable(v as nat, max as nat) {
                1nat
            } else {
                0nat
            });
        }
        if !power_of_two(v as u32) {
            total = total + 1;
        }
        v = v + 1;
    }
    proof {
        if max < 2 {
            lemma_drawable_below_grows(max as nat + 1, 2, max as nat);
        }
    }
    total
}

/// The core values that the ranks `ranks` pick among the drawable values:
/// those drawable values whose rank is listed, in increasing order, each
/// once, followed by `max` unless it is already last.
pub fn core_values_from_draws(ranks: &Vec<u32>, max: u32) -> (r: Vec<u32>)
    ensures
        r@.len() >= 1,
        r@.len() <= ranks@.len() + 1,
        r@.last() == max,
        forall|i: int, j: int| 0 <= i < j < r@.len() ==> r@[i] < r@[j],
        forall|i: int|
            0 <= i < r@.len() - 1 ==> drawable(#[trigger] r@[i] as nat, max as nat)
                && ranks@.contains(drawable_below(r@[i] as nat, max as nat) as u32),
        forall|v: u32|
            drawable(v as nat, max as nat) && ranks@.contains(
                #[trigger] drawable_below(v as nat, max as nat) as u32,
            ) ==> r@.contains(v),
{
    let total = drawable_count(max);
    // mark the ranks drawn
    let mut chosen: Vec<bool> = Vec::new();
    let mut i: u32 = 0;
    while i < total
        invariant
            i <= total,
            chosen@.len() == i,
            trues(chosen@) == 0,
            forall|k: int| 0 <= k < i ==> !chosen@[k],
        decreases total - i,
    {
        proof {
            assert(chosen@.push(false).drop_last() =~= chosen@);
        }
        chosen.push(false);
        i = i + 1;
    }
    let mut j: usize = 0;
    while j < ranks.len()
        invariant
            j <= ranks@.len(),
            chosen@.len() == total,
            trues(chosen@) <= j,
            forall|k: int|
                0 <= k < total ==> (#[trigger] chosen@[k] <==> exists|m: int|
                    0 <= m < j && ranks@[m] == k),
        decreases ranks@.len() - j,
    {
        let k = ranks[j];
        if k < total && !chosen[k as usize] {
            proof {
                lemma_trues_set(chosen@, k as int);
            }
            chosen.set(k as usize, true);
        }
        proof {
            assert forall|q: int| 0 <= q < total implies (#[trigger] chosen@[q] <==> exists|m: int|
                0 <= m < j + 1 && ranks@[m] == q) by {
                if q == k {
                    assert(ranks@[j as int] == q);
                }
                if exists|m: int| 0 <= m < j + 1 && ranks@[m] == q {
                    let m = choose|m: int| 0 <= m < j + 1 && ranks@[m] == q;
                    if m == j {
                        assert(q == k);
                    }
                }
            }
        }
        j = j + 1;
    }
    // the picked values, in increasing order
    let mut r: Vec<u32> = Vec::new();
    let mut rank: u32 = 0;
    let mut v: u64 = 2;
    while v <= max as u64
        invariant
            2 <= v <= max as u64 + 1 || (v == 2 && max < 2),
            total == drawable_below(max as nat + 1, max as nat),
            chosen@.len() == total,
            rank == drawable_below(v as nat, max as nat),
            rank <= total,
            trues(chosen@) <= ranks@.len(),
            forall|k: int|
                0 <= k < total ==> (#[trigger] chosen@[k] <==> exists|m: int|
                    0 <= m < ranks@.len() && ranks@[m] == k),
            r@.len() <= trues(chosen@.subrange(0, rank as int)),
            forall|i: int|
                0 <= i < r@.len() ==> r@[i] < v && drawable(#[trigger] r@[i] as nat, max as nat)
                    && (drawable_below(r@[i] as nat, max as nat) as int) < total
                    && chosen@[drawable_below(r@[i] as nat, max as nat) as int],
            forall|i: int, j: int| 0 <= i < j < r@.len() ==> r@[i] < r@[j],
            forall|w: u32|
                w < v && drawable(w as nat, max as nat) && (#[trigger] drawable_below(
                    w as nat,
                    max as nat,
                ) as int) < total && chosen@[drawable_below(w as nat, max as nat) as int]
                    ==> r@.contains(w),
        decreases max as u64 + 1 - v,
    {
        proof {
            assert(drawable_below(v as nat + 1, max as nat) == drawable_below(v as nat, max as nat)
                + if drawable(v as nat, max as nat) {
                1nat
            } else {
                0nat
            });
            lemma_drawable_below_grows(v as nat + 1, max as nat + 1, max as nat);
        }
        let ghost before = r@;
        if !power_of_two(v as u32) {
            proof {
                lemma_trues_step(chosen@, rank as int);
            }
            if chosen[rank as usize] {
                r.push(v as u32);
                proof {
                    assert(r@[before.len() as int] == v as u32);
                }
            }
            rank = rank + 1;
        }
        proof {
            assert forall|w: u32|
                w < v + 1 && drawable(w as nat, max as nat) && (#[trigger] drawable_below(
                    w as nat,
                    max as nat,
                ) as int) < total && chosen@[drawable_below(w as nat, max as nat) as int]
                    implies r@.contains(w) by {
                if w < v {
                    let q = choose|q: int| 0 <= q < before.len() && before[q] == w;
                    assert(r@[q] == w);
                } else {
                    assert(r@[before.len() as int] == w);
                }
            }
        }
        v = v + 1;
    }
    proof {
        lemma_trues_prefix(chosen@, rank as int);
    }
    let ghost body = r@;
    if r.len() == 0 || r[r.len() - 1] != max {
        r.push(max);
        proof {
            assert forall|i: int, j: int| 0 <= i < j < r@.len() implies r@[i] < r@[j] by {
                if j == r@.len() - 1 {
                    assert(body[i] == r@[i]);
                    assert(drawable(body[i] as nat, max as nat));
                }
            }
        }
    }
    proof {
        assert forall|i: int| 0 <= i < r@.len() - 1 implies drawable(#[trigger] r@[i] as nat, max as nat)
            && ranks@.contains(drawable_below(r@[i] as nat, max as nat) as u32) by {
            assert(r@[i] == body[i]);
            let k = drawable_below(body[i] as nat, max as nat) as int;
            assert(chosen@[k]);
            let m = choose|m: int| 0 <= m < ranks@.len() && ranks@[m] == k;
            assert(ranks@[m] == k as u32);
        }
        assert forall|w: u32|
            drawable(w as nat, max as nat) && ranks@.contains(
                #[trigger] drawable_below(w as nat, max as nat) as u32,
            ) implies r@.contains(w) by {
            lemma_drawable_below_grows(w as nat + 1, max as nat + 1, max as nat);
            assert(drawable_below(w as nat + 1, max as nat) == drawable_below(w as nat, max as nat)
                + 1);
            let k = drawable_below(w as nat, max as nat) as int;
            let m = choose|m: int| 0 <= m < ranks@.len() && ranks@[m] == k as u32;
            assert(chosen@[k]);
            let q = choose|q: int| 0 <= q < body.len() && body[q] == w;
            assert(r@[q] == w);
        }
    }
    r
}

/// Draws `n` core values at random among the drawable ones, each as likely,
/// and returns what `core_values_from_draws` makes of the draws.
pub fn generate_core_values(n: usize, max: u32) -> (r: Vec<u32>)
    ensures
        r@.len() >= 1,
        r@.len() <= n + 1,
        r@.last() == max,
        forall|i: int, j: int| 0 <= i < j < r@.len() ==> r@[i] < r@[j],
        forall|i: int| 0 <= i < r@.len() - 1 ==> drawable(#[trigger] r@[i] as nat, max as nat),
{
    let total = drawable_count(max);
    let mut ranks: Vec<u32> = Vec::new();
    if total > 0 {
        let mut drawn: usize = 0;
        while drawn < n
            invariant
                drawn <= n,
                total > 0,
                ranks@.len() == drawn,
            decreases n - drawn,
        {
            ranks.push(draw(0, total - 1));
            drawn = drawn + 1;
        }
    }
    core_values_from_draws(&ranks, max)
}

} // verus!
