//! Per-filesystem known-byte lower bounds for a fresh install.  Observations
//! are grouped by device: known bytes add up, the largest atomic stage is
//! kept, and the smallest reported free space wins.

use crate::error::InstallError;
use crate::text::{concat2, decimal, spec_decimal};
use vstd::prelude::*;

verus! {

/// One observation: `(device, available, known_bytes, atomic_stage_bytes)`.
pub type Observation = (u64, u64, u64, u64);

/// Some observation is of device `d`.
pub open spec fn device_in(obs: Seq<Observation>, d: u64) -> bool {
    exists|i: int| 0 <= i < obs.len() && (#[trigger] obs[i]).0 == d
}

/// Sum of the known bytes observed on `d`.
pub open spec fn known_sum(obs: Seq<Observation>, d: u64) -> int
    decreases obs.len(),
{
    if obs.len() == 0 {
        0
    } else {
        known_sum(obs.drop_last(), d) + if obs.last().0 == d {
            obs.last().2 as int
        } else {
            0
        }
    }
}

/// Largest atomic stage observed on `d` (0 if none).
pub open spec fn largest_stage(obs: Seq<Observation>, d: u64) -> int
    decreases obs.len(),
{
    if obs.len() == 0 {
        0
    } else {
        let prev = largest_stage(obs.drop_last(), d);
        if obs.last().0 == d && obs.last().3 > prev {
            obs.last().3 as int
        } else {
            prev
        }
    }
}

/// Smallest free space reported for `d` (`u64::MAX` if none).
pub open spec fn least_available(obs: Seq<Observation>, d: u64) -> int
    decreases obs.len(),
{
    if obs.len() == 0 {
        u64::MAX as int
    } else {
        let prev = least_available(obs.drop_last(), d);
        if obs.last().0 == d && obs.last().1 < prev {
            obs.last().1 as int
        } else {
            prev
        }
    }
}

/// The bytes a fresh install needs on `d`: everything known plus room for
/// the largest atomic stage.
pub open spec fn required_on(obs: Seq<Observation>, d: u64) -> int {
    known_sum(obs, d) + largest_stage(obs, d)
}

/// Some device's requirement does not fit in 64 bits.
pub open spec fn requirement_overflows(obs: Seq<Observation>) -> bool {
    exists|d: u64| #[trigger] required_on(obs, d) > u64::MAX
}

/// Some device's known bytes alone do not fit in 64 bits.
pub open spec fn known_overflows(obs: Seq<Observation>) -> bool {
    exists|d: u64| #[trigger] known_sum(obs, d) > u64::MAX
}

/// Why an aggregation that overflows is refused: the known bytes of a
/// device, or else its requirement with room for the largest stage.
pub open spec fn overflow_refusal(obs: Seq<Observation>) -> Seq<char> {
    if known_overflows(obs) {
        "known fresh-plan filesystem byte count overflowed"@
    } else {
        "known fresh-plan space requirement overflowed"@
    }
}

/// `v` lists each observed device once, in increasing order, with its
/// requirement and its least free space.
pub open spec fn grouped_exactly(obs: Seq<Observation>, v: Seq<(u64, u64, u64)>) -> bool {
    &&& forall|i: int, j: int| 0 <= i < j < v.len() ==> (#[trigger] v[i]).0 < (#[trigger] v[j]).0
    &&& forall|i: int|
        0 <= i < v.len() ==> device_in(obs, (#[trigger] v[i]).0) && v[i].1 == required_on(
            obs,
            v[i].0,
        ) && v[i].2 == least_available(obs, v[i].0)
    &&& forall|d: u64| device_in(obs, d) ==> exists|i: int| 0 <= i < v.len() && (#[trigger] v[i]).0 == d
}

proof fn lemma_grouped_agree_below(
    obs: Seq<Observation>,
    v: Seq<(u64, u64, u64)>,
    w: Seq<(u64, u64, u64)>,
    n: int,
)
    requires
        grouped_exactly(obs, v),
        grouped_exactly(obs, w),
        0 <= n <= v.len(),
        n <= w.len(),
    ensures
        forall|k: int| 0 <= k < n ==> v[k] == w[k],
    decreases n,
{
    if n > 0 {
        let i = n - 1;
        lemma_grouped_agree_below(obs, v, w, i);
        let a = v[i].0;
        let b = w[i].0;
        assert(device_in(obs, a));
        assert(device_in(obs, b));
        let j = choose|j: int| 0 <= j < w.len() && (#[trigger] w[j]).0 == a;
        let l = choose|l: int| 0 <= l < v.len() && (#[trigger] v[l]).0 == b;
        if j < i {
            assert(v[j] == w[j]);
            assert(v[j].0 < v[i].0);
        } else if j > i {
            assert(w[i].0 < w[j].0);
            if l < i {
                assert(v[l] == w[l]);
                assert(w[l].0 < w[i].0);
            } else if l > i {
                assert(v[i].0 < v[l].0);
            }
        }
        assert(a == b);
    }
}

/// The aggregation is unique: two lists that each group the same
/// observations exactly are the same list.
pub proof fn lemma_grouped_exactly_unique(
    obs: Seq<Observation>,
    v: Seq<(u64, u64, u64)>,
    w: Seq<(u64, u64, u64)>,
)
    requires
        grouped_exactly(obs, v),
        grouped_exactly(obs, w),
    ensures
        v == w,
{
    if v.len() <= w.len() {
        lemma_grouped_agree_below(obs, v, w, v.len() as int);
        if v.len() < w.len() {
            let d = w[v.len() as int].0;
            assert(device_in(obs, d));
            let j = choose|j: int| 0 <= j < v.len() && (#[trigger] v[j]).0 == d;
            assert(v[j] == w[j]);
            assert(w[j].0 < w[v.len() as int].0);
        }
    } else {
        lemma_grouped_agree_below(obs, v, w, w.len() as int);
        let d = v[w.len() as int].0;
        assert(device_in(obs, d));
        let j = choose|j: int| 0 <= j < w.len() && (#[trigger] w[j]).0 == d;
        assert(v[j] == w[j]);
        assert(v[j].0 < v[w.len() as int].0);
    }
    assert(v =~= w);
}

proof fn lemma_absent(obs: Seq<Observation>, d: u64)
    requires
        !device_in(obs, d),
    ensures
        known_sum(obs, d) == 0,
        largest_stage(obs, d) == 0,
        least_available(obs, d) == u64::MAX,
    decreases obs.len(),
{
    if obs.len() > 0 {
        let p = obs.drop_last();
        assert(!device_in(p, d)) by {
            if device_in(p, d) {
                let i = choose|i: int| 0 <= i < p.len() && (#[trigger] p[i]).0 == d;
                assert(obs[i] == p[i]);
            }
        }
        assert(obs[obs.len() - 1] == obs.last());
        lemma_absent(p, d);
    }
}

proof fn lemma_bounds(obs: Seq<Observation>, d: u64)
    ensures
        known_sum(obs, d) >= 0,
        0 <= largest_stage(obs, d) <= u64::MAX,
        0 <= least_available(obs, d) <= u64::MAX,
    decreases obs.len(),
{
    if obs.len() > 0 {
        lemma_bounds(obs.drop_last(), d);
    }
}

proof fn lemma_prefix_monotone(obs: Seq<Observation>, k: int, d: u64)
    requires
        0 <= k <= obs.len(),
    ensures
        known_sum(obs.subrange(0, k), d) <= known_sum(obs, d),
        largest_stage(obs.subrange(0, k), d) <= largest_stage(obs, d),
    decreases obs.len() - k,
{
    if k < obs.len() {
        lemma_prefix_monotone(obs, k + 1, d);
        let q = obs.subrange(0, k + 1);
        assert(q.drop_last() =~= obs.subrange(0, k));
        lemma_bounds(obs.subrange(0, k), d);
    } else {
        assert(obs.subrange(0, k) =~= obs);
    }
}

/// The overflow refusal.
fn overflowed(reason: &str) -> (e: InstallError)
    ensures
        e matches InstallError::InvalidPlan(m) && m@ == reason@,
{
    InstallError::InvalidPlan(String::from_str(reason))
}

/// Groups `observations` by device, in increasing device order, as
/// `(device, required, available)`; refuses a requirement that overflows.
pub fn aggregate_known_space_requirements_for_tests(observations: &[Observation]) -> (r: Result<
    Vec<(u64, u64, u64)>,
    InstallError,
>)
    ensures
        r is Err <==> requirement_overflows(observations@),
        r matches Err(e) ==> (e matches InstallError::InvalidPlan(m) && m@ == overflow_refusal(
            observations@,
        )),
        r matches Ok(v) ==> grouped_exactly(observations@, v@),
{
    let ghost obs = observations@;
    // (device, available, known, largest stage), strictly ordered by device.
    let mut acc: Vec<(u64, u64, u64, u64)> = Vec::new();
    let mut k: usize = 0;
    while k < observations.len()
        invariant
            k <= observations.len(),
            obs == observations@,
            forall|i: int, j: int| 0 <= i < j < acc.len() ==> (#[trigger] acc@[i]).0 < (#[trigger] acc@[j]).0,
            forall|i: int|
                0 <= i < acc.len() ==> {
                    let p = obs.subrange(0, k as int);
                    let e = #[trigger] acc@[i];
                    &&& device_in(p, e.0)
                    &&& e.1 == least_available(p, e.0)
                    &&& e.2 == known_sum(p, e.0)
                    &&& e.3 == largest_stage(p, e.0)
                },
            forall|d: u64|
                device_in(obs.subrange(0, k as int), d) ==> exists|i: int|
                    0 <= i < acc.len() && (#[trigger] acc@[i]).0 == d,
        decreases observations.len() - k,
    {
        let (device, available, known, stage) = observations[k];
        let ghost p = obs.subrange(0, k as int);
        let ghost q = obs.subrange(0, k + 1);
        proof {
            assert(q.drop_last() =~= p);
            assert(q.last() == (device, available, known, stage));
        }
        let mut pos: usize = 0;
        while pos < acc.len() && acc[pos].0 < device
            invariant
                pos <= acc.len(),
                forall|i: int| 0 <= i < pos ==> (#[trigger] acc@[i]).0 < device,
            decreases acc.len() - pos,
        {
            pos = pos + 1;
        }
        if pos < acc.len() && acc[pos].0 == device {
            let e = acc[pos];
            if e.2 > u64::MAX - known {
                proof {
                    lemma_prefix_monotone(obs, k + 1, device);
                    lemma_bounds(obs, device);
                    assert(required_on(obs, device) > u64::MAX);
                    assert(known_sum(obs, device) > u64::MAX);
                    assert(known_overflows(obs));
                }
                return Err(overflowed("known fresh-plan filesystem byte count overflowed"));
            }
            let new_stage = if stage > e.3 {
                stage
            } else {
                e.3
            };
            let new_available = if available < e.1 {
                available
            } else {
                e.1
            };
            let ghost old_acc = acc@;
            acc.set(pos, (device, new_available, e.2 + known, new_stage));
            proof {
                assert forall|i: int| 0 <= i < acc.len() implies {
                    let e2 = #[trigger] acc@[i];
                    &&& device_in(q, e2.0)
                    &&& e2.1 == least_available(q, e2.0)
                    &&& e2.2 == known_sum(q, e2.0)
                    &&& e2.3 == largest_stage(q, e2.0)
                } by {
                    let e2 = acc@[i];
                    assert(device_in(p, old_acc[i].0));
                    let w = choose|w: int| 0 <= w < p.len() && (#[trigger] p[w]).0 == old_acc[i].0;
                    assert(q[w] == p[w]);
                    if i != pos {
                        assert(old_acc[i].0 != device) by {
                            if i < pos {
                            } else {
                                assert(old_acc[pos as int].0 < old_acc[i].0);
                            }
                        }
                    }
                }
                assert forall|d: u64| device_in(q, d) implies exists|i: int|
                    0 <= i < acc.len() && (#[trigger] acc@[i]).0 == d by {
                    let w = choose|w: int| 0 <= w < q.len() && (#[trigger] q[w]).0 == d;
                    if w < k {
                        assert(p[w] == q[w]);
                        assert(device_in(p, d));
                        let i = choose|i: int| 0 <= i < old_acc.len() && (#[trigger] old_acc[i]).0 == d;
                        assert(acc@[i].0 == d);
                    } else {
                        assert(acc@[pos as int].0 == d);
                    }
                }
            }
        } else {
            proof {
                assert(!device_in(p, device)) by {
                    if device_in(p, device) {
                        let i = choose|i: int| 0 <= i < acc.len() && (#[trigger] acc@[i]).0 == device;
                        if i >= pos {
                            if i > pos {
                                assert(acc@[pos as int].0 < acc@[i].0);
                            }
                        }
                    }
                }
                lemma_absent(p, device);
            }
            let ghost old_acc = acc@;
            acc.insert(pos, (device, available, known, stage));
            proof {
                assert forall|i: int| 0 <= i < acc.len() implies {
                    let e2 = #[trigger] acc@[i];
                    &&& device_in(q, e2.0)
                    &&& e2.1 == least_available(q, e2.0)
                    &&& e2.2 == known_sum(q, e2.0)
                    &&& e2.3 == largest_stage(q, e2.0)
                } by {
                    if i == pos {
                        assert(q[k as int].0 == device);
                    } else {
                        let oi = if i < pos {
                            i
                        } else {
                            i - 1
                        };
                        assert(acc@[i] == old_acc[oi]);
                        assert(device_in(p, old_acc[oi].0));
                        let w = choose|w: int| 0 <= w < p.len() && (#[trigger] p[w]).0 == old_acc[oi].0;
                        assert(q[w] == p[w]);
                        assert(old_acc[oi].0 != device);
                    }
                }
                assert forall|i: int, j: int| 0 <= i < j < acc.len() implies (#[trigger] acc@[i]).0 < (
                #[trigger] acc@[j]).0 by {
                    if j < pos {
                        assert(acc@[i] == old_acc[i] && acc@[j] == old_acc[j]);
                    } else if j == pos {
                        assert(acc@[i] == old_acc[i]);
                    } else if i == pos {
                        assert(acc@[j] == old_acc[j - 1]);
                        if j - 1 > pos {
                            assert(old_acc[pos as int].0 < old_acc[j - 1].0);
                        }
                    } else if i < pos {
                        assert(acc@[i] == old_acc[i] && acc@[j] == old_acc[j - 1]);
                        assert(old_acc[pos as int].0 > device);
                        if j - 1 > pos {
                            assert(old_acc[pos as int].0 < old_acc[j - 1].0);
                        }
                    } else {
                        assert(acc@[i] == old_acc[i - 1] && acc@[j] == old_acc[j - 1]);
                    }
                }
                assert forall|d: u64| device_in(q, d) implies exists|i: int|
                    0 <= i < acc.len() && (#[trigger] acc@[i]).0 == d by {
                    let w = choose|w: int| 0 <= w < q.len() && (#[trigger] q[w]).0 == d;
                    if w < k {
                        assert(p[w] == q[w]);
                        assert(device_in(p, d));
                        let i = choose|i: int| 0 <= i < old_acc.len() && (#[trigger] old_acc[i]).0 == d;
                        if i < pos {
                            assert(acc@[i].0 == d);
                        } else {
                            assert(acc@[i + 1].0 == d);
                        }
                    } else {
                        assert(acc@[pos as int].0 == d);
                    }
                }
            }
        }
        k = k + 1;
    }
    proof {
        assert(obs.subrange(0, obs.len() as int) =~= obs);
    }
    let mut out: Vec<(u64, u64, u64)> = Vec::new();
    let mut i: usize = 0;
    while i < acc.len()
        invariant
            i <= acc.len(),
            out.len() == i,
            obs == observations@,
            obs.subrange(0, obs.len() as int) == obs,
            forall|d: u64|
                device_in(obs, d) ==> exists|a: int| 0 <= a < acc.len() && (#[trigger] acc@[a]).0 == d,
            forall|a: int, b: int| 0 <= a < b < acc.len() ==> (#[trigger] acc@[a]).0 < (#[trigger] acc@[b]).0,
            forall|a: int|
                0 <= a < acc.len() ==> {
                    let e = #[trigger] acc@[a];
                    &&& device_in(obs, e.0)
                    &&& e.1 == least_available(obs, e.0)
                    &&& e.2 == known_sum(obs, e.0)
                    &&& e.3 == largest_stage(obs, e.0)
                },
            forall|a: int|
                0 <= a < i ==> (#[trigger] out@[a]).0 == acc@[a].0 && out@[a].1 == required_on(
                    obs,
                    acc@[a].0,
                ) && out@[a].2 == acc@[a].1,
        decreases acc.len() - i,
    {
        let e = acc[i];
        if e.2 > u64::MAX - e.3 {
            proof {
                assert(required_on(obs, e.0) > u64::MAX);
                assert forall|d: u64| !(#[trigger] known_sum(obs, d) > u64::MAX) by {
                    if device_in(obs, d) {
                        let a = choose|a: int| 0 <= a < acc.len() && (#[trigger] acc@[a]).0 == d;
                    } else {
                        lemma_absent(obs, d);
                    }
                }
            }
            return Err(overflowed("known fresh-plan space requirement overflowed"));
        }
        out.push((e.0, e.2 + e.3, e.1));
        i = i + 1;
    }
    proof {
        assert forall|d: u64| !(#[trigger] required_on(obs, d) > u64::MAX) by {
            if device_in(obs, d) {
                let a = choose|a: int| 0 <= a < acc.len() && (#[trigger] acc@[a]).0 == d;
                assert(out@[a].1 == required_on(obs, d));
            } else {
                lemma_absent(obs, d);
            }
        }
        assert forall|a: int, b: int| 0 <= a < b < out.len() implies (#[trigger] out@[a]).0 < (
        #[trigger] out@[b]).0 by {
            assert(acc@[a].0 < acc@[b].0);
        }
        assert forall|d: u64| device_in(obs, d) implies exists|a: int|
            0 <= a < out.len() && (#[trigger] out@[a]).0 == d by {
            let a = choose|a: int| 0 <= a < acc.len() && (#[trigger] acc@[a]).0 == d;
            assert(out@[a].0 == d);
        }
        assert forall|a: int| 0 <= a < out.len() implies device_in(obs, (#[trigger] out@[a]).0)
            && out@[a].1 == required_on(obs, out@[a].0) && out@[a].2 == least_available(
            obs,
            out@[a].0,
        ) by {
            let e = acc@[a];
        }
    }
    Ok(out)
}

/// The path under which a test filesystem is reported.
pub open spec fn test_filesystem_path(device: u64) -> Seq<char> {
    "/test-filesystem-"@ + spec_decimal(device as nat)
}

/// Aggregates `observations`, then refuses the first device whose least free
/// space is below its requirement.
pub fn check_known_space_requirements_for_tests(observations: &[Observation]) -> (r: Result<
    Vec<(u64, u64, u64)>,
    InstallError,
>)
    ensures
        requirement_overflows(observations@) ==> (r matches Err(InstallError::InvalidPlan(m)) && m@
            == overflow_refusal(observations@)),
        !requirement_overflows(observations@) ==> {
            let sufficient = forall|d: u64|
                device_in(observations@, d) ==> required_on(observations@, d) <= least_available(
                    observations@,
                    d,
                );
            &&& sufficient ==> (r matches Ok(v) && grouped_exactly(observations@, v@))
            &&& !sufficient ==> (r matches Err(
                InstallError::InsufficientFreeSpace { path, required, available },
            ) && exists|d: u64|
                #[trigger] device_in(observations@, d) && path@ == test_filesystem_path(d) && required
                    == required_on(observations@, d) && available == least_available(observations@, d)
                    && available < required && forall|e: u64|
                    e < d && device_in(observations@, e) ==> #[trigger] required_on(observations@, e)
                        <= least_available(observations@, e))
        },
{
    let grouped = match aggregate_known_space_requirements_for_tests(observations) {
        Ok(v) => v,
        Err(e) => {
            return Err(e);
        },
    };
    let mut i: usize = 0;
    while i < grouped.len()
        invariant
            i <= grouped.len(),
            grouped_exactly(observations@, grouped@),
            !requirement_overflows(observations@),
            forall|a: int| 0 <= a < i ==> (#[trigger] grouped@[a]).1 <= grouped@[a].2,
        decreases grouped.len() - i,
    {
        let (device, required, available) = grouped[i];
        if available < required {
            let digits = decimal(device);
            let path = concat2("/test-filesystem-", digits.as_str());
            proof {
                let obs = observations@;
                assert(device_in(obs, device));
                assert forall|e: u64| e < device && device_in(obs, e) implies #[trigger] required_on(
                    obs,
                    e,
                ) <= least_available(obs, e) by {
                    let a = choose|a: int| 0 <= a < grouped.len() && (#[trigger] grouped@[a]).0 == e;
                    if a >= i {
                        if a > i {
                            assert(grouped@[i as int].0 < grouped@[a].0);
                        }
                    }
                }
            }
            return Err(InstallError::InsufficientFreeSpace { path, required, available });
        }
        i = i + 1;
    }
    proof {
        assert forall|d: u64| device_in(observations@, d) implies required_on(observations@, d)
            <= least_available(observations@, d) by {
            let a = choose|a: int| 0 <= a < grouped.len() && (#[trigger] grouped@[a]).0 == d;
        }
    }
    Ok(grouped)
}

} // verus!
