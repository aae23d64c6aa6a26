//! Selection and assignment of physical CPU cores.
//!
//! The core table holds one entry per physical core, indexed by core id.
use vstd::prelude::*;

use crate::error::BlixardError;

verus! {

/// How cores are chosen for an allocation.
#[derive(Debug, Clone, Copy, PartialEq, Eq, Structural)]
pub enum CpuSchedulingPolicy {
    /// The first usable cores in id order.
    FirstFit,
    /// The usable cores with the fewest vCPUs on them.
    BestFit,
    /// The least loaded cores overall, keeping those that are usable.
    RoundRobin,
    /// A run of adjacent usable cores, for cache locality.
    AffinityAware,
}

/// Assignment state of one physical core.
#[derive(Debug, Clone)]
pub struct CoreUsage {
    pub core_id: u32,
    /// vCPUs placed on this core.
    pub allocated_vcpus: u32,
    /// Measured utilization in thousandths of the core (1000 = fully busy).
    pub utilization_permille: u32,
    /// Whether the core is held exclusively.
    pub exclusive: bool,
    /// Tenant holding the core exclusively, if any.
    pub exclusive_tenant: Option<String>,
}

/// Whether a core can take part in a request under the main selection rule:
/// an exclusive request needs an idle core, a shared one a core nobody holds exclusively.
pub open spec fn usable(c: CoreUsage, exclusive: bool) -> bool {
    if exclusive {
        c.allocated_vcpus == 0
    } else {
        !c.exclusive
    }
}

/// The rule of the first-fit fallback: shared requests also need fewer than 4 vCPUs on the core.
pub open spec fn usable_fallback(c: CoreUsage, exclusive: bool) -> bool {
    if exclusive {
        c.allocated_vcpus == 0
    } else {
        !c.exclusive && c.allocated_vcpus < 4
    }
}

/// Ids, in increasing order, of the cores that satisfy `p`.
pub open spec fn ids_where(cores: Seq<CoreUsage>, p: spec_fn(CoreUsage) -> bool) -> Seq<u32>
    decreases cores.len(),
{
    if cores.len() == 0 {
        Seq::empty()
    } else {
        let rest = ids_where(cores.drop_last(), p);
        if p(cores.last()) {
            rest.push((cores.len() - 1) as u32)
        } else {
            rest
        }
    }
}

/// First-fit picking: cores are taken in order until at least `needed` are held
/// (a request for zero still takes the first usable core).
pub open spec fn first_fit_pick(ids: Seq<u32>, needed: nat) -> Seq<u32> {
    let want = if needed == 0 {
        1nat
    } else {
        needed
    };
    if ids.len() <= want {
        ids
    } else {
        ids.take(want as int)
    }
}

/// Ordering key of a core: its vCPU count, ties broken by lower id.
pub open spec fn load_key(cores: Seq<CoreUsage>, id: int) -> int {
    cores[id].allocated_vcpus as int * 0x1_0000_0000 + id
}

/// Whether `out` holds the (at most) `count` cores satisfying `p` with the lowest
/// load keys, in increasing key order.
pub open spec fn is_lowest_load(cores: Seq<CoreUsage>, p: spec_fn(CoreUsage) -> bool, count: nat, out: Seq<u32>) -> bool {
    &&& out.len() <= count
    &&& forall|k: int| 0 <= k < out.len() ==> 0 <= #[trigger] out[k] < cores.len() && p(cores[out[k] as int])
    &&& forall|a: int, b: int| 0 <= a < b < out.len() ==> load_key(cores, out[a] as int) < load_key(cores, out[b] as int)
    &&& forall|c: int|
        #![trigger cores[c]]
        0 <= c < cores.len() && p(cores[c]) && !out.contains(c as u32) ==> out.len() == count
            && forall|k: int| 0 <= k < out.len() ==> load_key(cores, out[k] as int) < load_key(cores, c)
}

/// Whether `lowest` and `lowest_all` are the lowest-load orders of the table for a
/// request of `needed` cores: over the usable cores, and over all cores.
pub open spec fn load_orders(cores: Seq<CoreUsage>, exclusive: bool, needed: nat, lowest: Seq<u32>, lowest_all: Seq<u32>) -> bool {
    &&& is_lowest_load(cores, usable_pred(exclusive), needed, lowest)
    &&& is_lowest_load(cores, any_core(), needed, lowest_all)
}

/// Scan for a run of usable cores: the start of the first run of at least `needed`
/// usable cores that is followed by an unusable core.
pub open spec fn affinity_run(usable_at: Seq<bool>, needed: nat, i: int, start: int) -> Option<int>
    decreases usable_at.len() - i,
{
    if i >= usable_at.len() || i < 0 {
        None
    } else if usable_at[i] {
        affinity_run(usable_at, needed, i + 1, start)
    } else if i - start >= needed {
        Some(start)
    } else {
        affinity_run(usable_at, needed, i + 1, i + 1)
    }
}

/// Whether the core with this id is usable under the main rule.
pub open spec fn usable_id(cores: Seq<CoreUsage>, exclusive: bool) -> spec_fn(u32) -> bool {
    |id: u32| usable(cores[id as int], exclusive)
}

/// Which cores are usable under the main rule.
pub open spec fn usable_flags(cores: Seq<CoreUsage>, exclusive: bool) -> Seq<bool> {
    Seq::new(cores.len(), |i: int| usable(cores[i], exclusive))
}

/// The predicate of the main rule.
pub open spec fn usable_pred(exclusive: bool) -> spec_fn(CoreUsage) -> bool {
    |c: CoreUsage| usable(c, exclusive)
}

/// The predicate of the fallback rule.
pub open spec fn fallback_pred(exclusive: bool) -> spec_fn(CoreUsage) -> bool {
    |c: CoreUsage| usable_fallback(c, exclusive)
}

/// The predicate that accepts every core.
pub open spec fn any_core() -> spec_fn(CoreUsage) -> bool {
    |c: CoreUsage| true
}

/// Whether the cores listed are distinct valid ids of the table.
pub open spec fn valid_core_ids(cores: Seq<CoreUsage>, ids: Seq<u32>) -> bool {
    &&& ids.no_duplicates()
    &&& forall|k: int| 0 <= k < ids.len() ==> #[trigger] ids[k] < cores.len()
}

proof fn lemma_ids_where_valid(cores: Seq<CoreUsage>, p: spec_fn(CoreUsage) -> bool)
    requires
        cores.len() <= u32::MAX,
    ensures
        forall|k: int| 0 <= k < ids_where(cores, p).len() ==> #[trigger] ids_where(cores, p)[k] < cores.len(),
        forall|a: int, b: int|
            0 <= a < b < ids_where(cores, p).len() ==> #[trigger] ids_where(cores, p)[a] < #[trigger] ids_where(cores, p)[b],
    decreases cores.len(),
{
    if cores.len() > 0 {
        let rest = ids_where(cores.drop_last(), p);
        lemma_ids_where_valid(cores.drop_last(), p);
        let all = ids_where(cores, p);
        assert forall|k: int| 0 <= k < all.len() implies #[trigger] all[k] < cores.len() by {
            if k < rest.len() {
                assert(all[k] == rest[k]);
            }
        }
        assert forall|a: int, b: int| 0 <= a < b < all.len() implies #[trigger] all[a] < #[trigger] all[b] by {
            if p(cores.last()) {
                assert(all == rest.push((cores.len() - 1) as u32));
                assert(all[a] == rest[a]);
                if b < rest.len() {
                    assert(all[b] == rest[b]);
                    assert(rest[a] < rest[b]);
                } else {
                    assert(rest[a] < cores.drop_last().len());
                }
            } else {
                assert(all == rest);
                assert(rest[a] < rest[b]);
            }
        }
    }
}

proof fn lemma_first_fit_valid(cores: Seq<CoreUsage>, p: spec_fn(CoreUsage) -> bool, needed: nat)
    requires
        cores.len() <= u32::MAX,
    ensures
        valid_core_ids(cores, first_fit_pick(ids_where(cores, p), needed)),
{
    lemma_ids_where_valid(cores, p);
    let all = ids_where(cores, p);
    let pick = first_fit_pick(all, needed);
    assert forall|k: int| 0 <= k < pick.len() implies #[trigger] pick[k] < cores.len() by {
        assert(pick[k] == all[k]);
    }
    assert forall|a: int, b: int| 0 <= a < pick.len() && 0 <= b < pick.len() && a != b implies pick[a] != pick[b] by {
        assert(pick[a] == all[a]);
        assert(pick[b] == all[b]);
        if a < b {
            assert(all[a] < all[b]);
        } else {
            assert(all[b] < all[a]);
        }
    }
}

proof fn lemma_lowest_valid(cores: Seq<CoreUsage>, p: spec_fn(CoreUsage) -> bool, count: nat, out: Seq<u32>)
    requires
        is_lowest_load(cores, p, count, out),
    ensures
        valid_core_ids(cores, out),
{
    assert forall|a: int, b: int| 0 <= a < out.len() && 0 <= b < out.len() && a != b implies out[a] != out[b] by {
        if a < b {
            assert(load_key(cores, out[a] as int) < load_key(cores, out[b] as int));
        } else {
            assert(load_key(cores, out[b] as int) < load_key(cores, out[a] as int));
        }
    }
}

/// Whether the table holds one entry per core, indexed by core id.
pub open spec fn table_wf(cores: Seq<CoreUsage>) -> bool {
    &&& cores.len() <= u32::MAX
    &&& forall|i: int| 0 <= i < cores.len() ==> (#[trigger] cores[i]).core_id == i
}

/// The error for a request that cannot be met.
pub open spec fn not_enough_cores(needed: nat, found: nat) -> BlixardError {
    BlixardError::InsufficientResources {
        requested_cpu: needed as u64,
        requested_memory_mb: 0,
        requested_disk_gb: 0,
        available_cpu: found as u64,
        available_memory_mb: 0,
        available_disk_gb: 0,
    }
}

/// The selection result for a candidate list: the list when it holds enough cores.
pub open spec fn selection_result(picked: Seq<u32>, needed: nat) -> Result<Seq<u32>, BlixardError> {
    if picked.len() < needed {
        Err(not_enough_cores(needed, picked.len()))
    } else {
        Ok(picked)
    }
}

/// Cores chosen by a policy for `needed` vCPUs, or the error.
pub open spec fn select_cores(cores: Seq<CoreUsage>, policy: CpuSchedulingPolicy, needed: nat, exclusive: bool, lowest: Seq<u32>, lowest_all: Seq<u32>) -> Result<Seq<u32>, BlixardError> {
    match policy {
        CpuSchedulingPolicy::FirstFit => selection_result(
            first_fit_pick(ids_where(cores, usable_pred(exclusive)), needed),
            needed,
        ),
        CpuSchedulingPolicy::BestFit => selection_result(lowest, needed),
        CpuSchedulingPolicy::RoundRobin => selection_result(
            lowest_all.filter(usable_id(cores, exclusive)),
            needed,
        ),
        CpuSchedulingPolicy::AffinityAware => match affinity_run(
            usable_flags(cores, exclusive),
            needed,
            0,
            0,
        ) {
            Some(start) => Ok(Seq::new(needed, |k: int| (start + k) as u32)),
            None => if needed == 0 {
                Ok(Seq::empty())
            } else {
                selection_result(
                    first_fit_pick(ids_where(cores, fallback_pred(exclusive)), needed),
                    needed,
                )
            },
        },
    }
}

proof fn lemma_ids_where_prefix(cores: Seq<CoreUsage>, p: spec_fn(CoreUsage) -> bool, i: int)
    requires
        0 <= i <= cores.len(),
    ensures
        ids_where(cores.take(i), p).len() <= ids_where(cores, p).len(),
        ids_where(cores, p).take(ids_where(cores.take(i), p).len() as int) == ids_where(
            cores.take(i),
            p,
        ),
    decreases cores.len() - i,
{
    if i == cores.len() {
        assert(cores.take(i) =~= cores);
        assert(ids_where(cores, p).take(ids_where(cores, p).len() as int) =~= ids_where(cores, p));
    } else {
        lemma_ids_where_prefix(cores, p, i + 1);
        let t = cores.take(i + 1);
        assert(t.drop_last() =~= cores.take(i));
        let a = ids_where(cores.take(i), p);
        let b = ids_where(t, p);
        let all = ids_where(cores, p);
        assert(all.take(a.len() as int) =~= b.take(a.len() as int));
        assert(b.take(a.len() as int) =~= a);
    }
}

fn take_first_fit(cores: &Vec<CoreUsage>, needed: u32, exclusive: bool, fallback: bool) -> (r: Vec<u32>)
    requires
        cores@.len() <= u32::MAX,
    ensures
        r@ == first_fit_pick(
            ids_where(
                cores@,
                if fallback {
                    fallback_pred(exclusive)
                } else {
                    usable_pred(exclusive)
                },
            ),
            needed as nat,
        ),
{
    let ghost p = if fallback {
        fallback_pred(exclusive)
    } else {
        usable_pred(exclusive)
    };
    let want: usize = if needed == 0 {
        1
    } else {
        needed as usize
    };
    let mut out: Vec<u32> = Vec::new();
    let mut i: usize = 0;
    while i < cores.len() && out.len() < want
        invariant
            i <= cores@.len(),
            cores@.len() <= u32::MAX,
            want == (if needed == 0 {
                1nat
            } else {
                needed as nat
            }),
            p == (if fallback {
                fallback_pred(exclusive)
            } else {
                usable_pred(exclusive)
            }),
            out@ == ids_where(cores@.take(i as int), p),
            out@.len() <= want,
        decreases cores@.len() - i,
    {
        let c = &cores[i];
        let ok = if fallback {
            if exclusive {
                c.allocated_vcpus == 0
            } else {
                !c.exclusive && c.allocated_vcpus < 4
            }
        } else {
            if exclusive {
                c.allocated_vcpus == 0
            } else {
                !c.exclusive
            }
        };
        proof {
            assert(cores@.take(i as int + 1).drop_last() =~= cores@.take(i as int));
            assert(cores@.take(i as int + 1).last() == cores@[i as int]);
        }
        if ok {
            out.push(i as u32);
        }
        i = i + 1;
    }
    proof {
        lemma_ids_where_prefix(cores@, p, i as int);
        let all = ids_where(cores@, p);
        if i == cores@.len() {
            assert(cores@.take(i as int) =~= cores@);
        } else {
            assert(out@.len() == want);
            assert(all.take(want as int) == out@);
            if all.len() == want {
                assert(all.take(want as int) =~= all);
            }
        }
    }
    out
}

/// Picks, in increasing load order, up to `count` cores satisfying the predicate
/// (`usable` when `filter`, any core otherwise).
fn lowest_load(cores: &Vec<CoreUsage>, count: u32, exclusive: bool, filter: bool) -> (r: Vec<u32>)
    requires
        cores@.len() <= u32::MAX,
    ensures
        is_lowest_load(
            cores@,
            if filter {
                usable_pred(exclusive)
            } else {
                any_core()
            },
            count as nat,
            r@,
        ),
{
    let ghost p = if filter {
        usable_pred(exclusive)
    } else {
        any_core()
    };
    let n = cores.len();
    let mut out: Vec<u32> = Vec::new();
    // keys of picked cores are all at most `last`; cores with key <= `last` satisfying p are picked
    let mut last: u64 = 0;
    let mut have_last = false;
    let mut done = false;
    while !done && out.len() < count as usize
        invariant
            n == cores@.len(),
            n <= u32::MAX,
            p == (if filter {
                usable_pred(exclusive)
            } else {
                any_core()
            }),
            out@.len() <= count,
            forall|k: int| 0 <= k < out@.len() ==> 0 <= #[trigger] out@[k] < n && p(cores@[out@[k] as int]),
            forall|a: int, b: int|
                0 <= a < b < out@.len() ==> load_key(cores@, out@[a] as int) < load_key(
                    cores@,
                    out@[b] as int,
                ),
            have_last == (out@.len() > 0),
            have_last ==> last == load_key(cores@, out@[out@.len() - 1] as int),
            have_last ==> forall|k: int| 0 <= k < out@.len() ==> load_key(cores@, #[trigger] out@[k] as int) <= last,
            forall|c: int|
                #![trigger cores@[c]]
                0 <= c < n && p(cores@[c]) && !out@.contains(c as u32) ==> have_last ==> last
                    < load_key(cores@, c),
            done ==> forall|c: int|
                #![trigger cores@[c]]
                0 <= c < n && p(cores@[c]) ==> out@.contains(c as u32),
        decreases count as int - out@.len() + (if done { 0int } else { 1int }),
    {
        // find the core with the smallest key above `last`
        let mut best: Option<(usize, u64)> = None;
        let mut j: usize = 0;
        while j < n
            invariant
                n == cores@.len(),
                n <= u32::MAX,
                j <= n,
                p == (if filter {
                    usable_pred(exclusive)
                } else {
                    any_core()
                }),
                match best {
                    Some((b, k)) => b < j && p(cores@[b as int]) && k == load_key(cores@, b as int)
                        && (have_last ==> last < k),
                    None => true,
                },
                forall|c: int|
                    #![trigger cores@[c]]
                    0 <= c < j && p(cores@[c]) && (!have_last || last < load_key(cores@, c))
                        ==> best is Some && load_key(cores@, c) >= best->Some_0.1,
            decreases n - j,
        {
            let c = &cores[j];
            let ok = if filter {
                if exclusive {
                    c.allocated_vcpus == 0
                } else {
                    !c.exclusive
                }
            } else {
                true
            };
            let key: u64 = (c.allocated_vcpus as u64) * 0x1_0000_0000 + (j as u64);
            if ok && (!have_last || key > last) {
                match best {
                    Some((_, bk)) => {
                        if key < bk {
                            best = Some((j, key));
                        }
                    },
                    None => {
                        best = Some((j, key));
                    },
                }
            }
            j = j + 1;
        }
        match best {
            Some((b, k)) => {
                proof {
                    assert(!out@.contains(b as u32)) by {
                        if out@.contains(b as u32) {
                            let w = choose|w: int| 0 <= w < out@.len() && out@[w] == b as u32;
                            if w < out@.len() - 1 {
                                assert(load_key(cores@, out@[w] as int) < load_key(
                                    cores@,
                                    out@[out@.len() - 1] as int,
                                ));
                            }
                        }
                    }
                }
                let ghost old_out = out@;
                let ghost old_have = have_last;
                let ghost old_last = last;
                out.push(b as u32);
                last = k;
                have_last = true;
                proof {
                    assert forall|q: int| 0 <= q < old_out.len() implies load_key(cores@, #[trigger] old_out[q] as int) < k by {
                        assert(old_have);
                        assert(load_key(cores@, old_out[q] as int) <= old_last);
                    }
                    assert forall|a: int, c: int| 0 <= a < c < out@.len() implies load_key(cores@, out@[a] as int) < load_key(cores@, out@[c] as int) by {
                        if c == out@.len() - 1 {
                            assert(out@[a] == old_out[a]);
                        } else {
                            assert(out@[a] == old_out[a]);
                            assert(out@[c] == old_out[c]);
                        }
                    }
                    assert forall|q: int| 0 <= q < out@.len() implies load_key(cores@, #[trigger] out@[q] as int) <= last by {
                        if q < old_out.len() {
                            assert(out@[q] == old_out[q]);
                        }
                    }
                    assert forall|c: int|
                        #![trigger cores@[c]]
                        0 <= c < n && p(cores@[c]) && !out@.contains(c as u32) implies last
                        < load_key(cores@, c) by {
                        if c == b as int {
                            assert(out@[out@.len() - 1] == c as u32);
                            assert(out@.contains(c as u32));
                        }
                        assert(!old_out.contains(c as u32)) by {
                            if old_out.contains(c as u32) {
                                let w = choose|w: int| 0 <= w < old_out.len() && old_out[w] == c as u32;
                                assert(out@[w] == c as u32);
                                assert(out@.contains(c as u32));
                            }
                        }
                        assert(load_key(cores@, c) >= k);
                        assert(load_key(cores@, c) != load_key(cores@, b as int));
                    }
                }
            },
            None => {
                done = true;
                proof {
                    assert forall|c: int|
                        #![trigger cores@[c]]
                        0 <= c < n && p(cores@[c]) implies out@.contains(c as u32) by {
                        if !out@.contains(c as u32) {
                            assert(!have_last || last < load_key(cores@, c));
                        }
                    }
                }
            },
        }
    }
    out
}

fn affinity_pick(cores: &Vec<CoreUsage>, needed: u32, exclusive: bool) -> (r: Option<usize>)
    requires
        cores@.len() <= u32::MAX,
    ensures
        match r {
            Some(s) => affinity_run(usable_flags(cores@, exclusive), needed as nat, 0, 0) == Some(s as int),
            None => affinity_run(usable_flags(cores@, exclusive), needed as nat, 0, 0) is None,
        },
        match affinity_run(usable_flags(cores@, exclusive), needed as nat, 0, 0) {
            Some(s) => 0 <= s && s + needed <= cores@.len(),
            None => true,
        },
{
    let ghost flags = usable_flags(cores@, exclusive);
    let n = cores.len();
    let mut start: usize = 0;
    let mut i: usize = 0;
    while i < n
        invariant
            n == cores@.len(),
            flags == usable_flags(cores@, exclusive),
            start <= i <= n,
            affinity_run(flags, needed as nat, 0, 0) == affinity_run(flags, needed as nat, i as int, start as int),
            forall|k: int| start <= k < i ==> flags[k],
        decreases n - i,
    {
        let c = &cores[i];
        let ok = if exclusive {
            c.allocated_vcpus == 0
        } else {
            !c.exclusive
        };
        if !ok {
            if i - start >= needed as usize {
                return Some(start);
            }
            start = i + 1;
        }
        i = i + 1;
    }
    None
}

/// Cores for `needed` vCPUs under `policy`, or an insufficient-resources error.
pub fn find_available_cores(cores: &Vec<CoreUsage>, policy: CpuSchedulingPolicy, needed: u32, exclusive: bool) -> (r: Result<Vec<u32>, BlixardError>)
    requires
        cores@.len() <= u32::MAX,
    ensures
        r matches Ok(v) ==> valid_core_ids(cores@, v@) && v@.len() <= u32::MAX,
        exists|lowest: Seq<u32>, lowest_all: Seq<u32>|
            {
                &&& #[trigger] load_orders(cores@, exclusive, needed as nat, lowest, lowest_all)
                &&& match r {
                    Ok(v) => select_cores(cores@, policy, needed as nat, exclusive, lowest, lowest_all)
                        == Ok::<Seq<u32>, BlixardError>(v@),
                    Err(e) => select_cores(cores@, policy, needed as nat, exclusive, lowest, lowest_all)
                        == Err::<Seq<u32>, BlixardError>(e),
                }
            },
{
    let lowest = lowest_load(cores, needed, exclusive, true);
    let lowest_all = lowest_load(cores, needed, exclusive, false);
    let ghost lw = lowest@;
    let ghost la = lowest_all@;
    proof {
        assert(load_orders(cores@, exclusive, needed as nat, lw, la));
        lemma_lowest_valid(cores@, usable_pred(exclusive), needed as nat, lw);
        lemma_lowest_valid(cores@, any_core(), needed as nat, la);
        lemma_first_fit_valid(cores@, usable_pred(exclusive), needed as nat);
        lemma_first_fit_valid(cores@, fallback_pred(exclusive), needed as nat);
    }
    let picked: Vec<u32> = match policy {
        CpuSchedulingPolicy::FirstFit => take_first_fit(cores, needed, exclusive, false),
        CpuSchedulingPolicy::BestFit => lowest,
        CpuSchedulingPolicy::RoundRobin => {
            let mut kept: Vec<u32> = Vec::new();
            let mut k: usize = 0;
            let ghost keep = usable_id(cores@, exclusive);
            while k < lowest_all.len()
                invariant
                    k <= lowest_all@.len(),
                    keep == usable_id(cores@, exclusive),
                    la == lowest_all@,
                    valid_core_ids(cores@, la),
                    kept@ == lowest_all@.take(k as int).filter(keep),
                    valid_core_ids(cores@, kept@),
                    forall|x: u32| kept@.contains(x) ==> lowest_all@.take(k as int).contains(x),
                decreases lowest_all@.len() - k,
            {
                let id = lowest_all[k];
                let c = &cores[id as usize];
                let ok = if exclusive {
                    c.allocated_vcpus == 0
                } else {
                    !c.exclusive
                };
                proof {
                    assert(lowest_all@.take(k as int).push(id) =~= lowest_all@.take(k as int + 1));
                    lowest_all@.take(k as int).lemma_filter_push(id, keep);
                }
                proof {
                    assert(!lowest_all@.take(k as int).contains(id)) by {
                        if lowest_all@.take(k as int).contains(id) {
                            let w = choose|w: int| 0 <= w < k && lowest_all@.take(k as int)[w] == id;
                            assert(lowest_all@[w] == lowest_all@[k as int]);
                        }
                    }
                }
                let ghost old_kept = kept@;
                if ok {
                    kept.push(id);
                    proof {
                        assert forall|a: int, b: int| 0 <= a < kept@.len() && 0 <= b < kept@.len() && a != b implies kept@[a] != kept@[b] by {
                            if a < old_kept.len() && b < old_kept.len() {
                                assert(old_kept[a] != old_kept[b]);
                            } else if a < old_kept.len() {
                                assert(old_kept.contains(kept@[a]));
                            } else {
                                assert(old_kept.contains(kept@[b]));
                            }
                        }
                        assert forall|q: int| 0 <= q < kept@.len() implies #[trigger] kept@[q] < cores@.len() by {
                            if q < old_kept.len() {
                                assert(kept@[q] == old_kept[q]);
                            }
                        }
                    }
                }
                proof {
                    assert forall|x: u32| kept@.contains(x) implies lowest_all@.take(k as int + 1).contains(x) by {
                        if old_kept.contains(x) {
                            let w = choose|w: int| 0 <= w < k && lowest_all@.take(k as int)[w] == x;
                            assert(lowest_all@.take(k as int + 1)[w] == x);
                        } else {
                            assert(lowest_all@.take(k as int + 1)[k as int] == x);
                        }
                    }
                }
                k = k + 1;
            }
            proof {
                assert(lowest_all@.take(lowest_all@.len() as int) =~= lowest_all@);
                lowest_all@.lemma_filter_len(keep);
            }
            kept
        },
        CpuSchedulingPolicy::AffinityAware => {
            match affinity_pick(cores, needed, exclusive) {
                Some(start) => {
                    let mut run: Vec<u32> = Vec::new();
                    let mut k: u32 = 0;
                    while k < needed
                        invariant
                            k <= needed,
                            start + needed <= cores@.len(),
                            cores@.len() <= u32::MAX,
                            run@ == Seq::new(k as nat, |q: int| (start + q) as u32),
                            valid_core_ids(cores@, run@),
                        decreases needed - k,
                    {
                        let ghost old_run = run@;
                        run.push((start as u32) + k);
                        proof {
                            assert forall|a: int, b: int| 0 <= a < run@.len() && 0 <= b < run@.len() && a != b implies run@[a] != run@[b] by {
                            }
                            assert(run@ =~= Seq::new((k + 1) as nat, |q: int| (start + q) as u32));
                        }
                        k = k + 1;
                    }
                    return Ok(run);
                },
                None => {
                    if needed == 0 {
                        return Ok(Vec::new());
                    }
                    take_first_fit(cores, needed, exclusive, true)
                },
            }
        },
    };
    if picked.len() < needed as usize {
        Err(
            BlixardError::InsufficientResources {
                requested_cpu: needed as u64,
                requested_memory_mb: 0,
                requested_disk_gb: 0,
                available_cpu: picked.len() as u64,
                available_memory_mb: 0,
                available_disk_gb: 0,
            },
        )
    } else {
        Ok(picked)
    }
}

} // verus!
