//! The batch planner: splitting a port range into contiguous sub-ranges.
//!
//! A batch is a contiguous sub-range of ports scanned as one atomic
//! fan-out/fan-in unit; batching exists purely to cap how many probes
//! are in flight at once. The planner is a pure function: it emits the
//! batches in ascending order, contiguous and non-overlapping, and they
//! cover the requested range exactly — a trailing range narrower than
//! the batch width is still emitted, so no port is silently skipped.

use vstd::prelude::*;

verus! {

/// One contiguous sub-range of ports, `begin` inclusive to `end`
/// exclusive.
#[derive(Clone, Copy, PartialEq, Eq, Structural, Debug)]
pub struct Batch {
    /// The first port of the sub-range.
    pub begin: u32,
    /// One past the last port of the sub-range.
    pub end: u32,
}

/// A well-formed plan over `[lo, hi)`: every batch is non-empty, the
/// first starts at `lo`, the last ends at `hi`, and consecutive batches
/// meet exactly, so the batches partition `[lo, hi)` in ascending
/// order.
pub open spec fn plan_wf(plan: Seq<Batch>, lo: int, hi: int) -> bool {
    &&& (plan.len() == 0 ==> lo == hi)
    &&& (plan.len() > 0 ==> plan[0].begin == lo && plan[plan.len() - 1].end == hi)
    &&& (forall|i: int| 0 <= i < plan.len() ==> plan[i].begin < plan[i].end)
    &&& (forall|i: int| 0 <= i < plan.len() - 1 ==> plan[i + 1].begin == plan[i].end)
}

/// Plans `[port_start, port_end)` as a single batch (or none at all,
/// when the range is empty): the unbatched scan probes every port in
/// one fan-out.
pub fn plan_unbatched(port_start: u32, port_end: u32) -> (plan: Vec<Batch>)
    requires
        port_start <= port_end,
    ensures
        plan_wf(plan@, port_start as int, port_end as int),
        plan@.len() == (if port_start < port_end { 1int } else { 0int }),
{
    let mut plan: Vec<Batch> = Vec::new();
    if port_start < port_end {
        plan.push(Batch { begin: port_start, end: port_end });
    }
    plan
}

/// Plans `[port_start, port_end)` as consecutive batches of width
/// `batch`, with one narrower trailing batch when the range does not
/// divide evenly — the whole range is always covered.
pub fn plan_batches(port_start: u32, port_end: u32, batch: u32) -> (plan: Vec<Batch>)
    requires
        port_start <= port_end,
        batch > 0,
    ensures
        plan_wf(plan@, port_start as int, port_end as int),
        forall|i: int| 0 <= i < plan@.len() ==> plan@[i].end - plan@[i].begin <= batch,
        forall|i: int| 0 <= i < plan@.len() - 1 ==> plan@[i].end - plan@[i].begin == batch,
{
    let mut plan: Vec<Batch> = Vec::new();
    let mut begin: u32 = port_start;
    while begin < port_end
        invariant
            port_start <= begin <= port_end,
            batch > 0,
            plan_wf(plan@, port_start as int, begin as int),
            forall|i: int| 0 <= i < plan@.len() ==> plan@[i].end <= begin,
            forall|i: int| 0 <= i < plan@.len() ==> plan@[i].end - plan@[i].begin <= batch,
            forall|i: int| 0 <= i < plan@.len() ==> (plan@[i].end < port_end
                ==> plan@[i].end - plan@[i].begin == batch),
        decreases port_end - begin,
    {
        let width = if port_end - begin < batch { port_end - begin } else { batch };
        let end = begin + width;
        plan.push(Batch { begin, end });
        begin = end;
    }
    proof {
        assert forall|i: int| 0 <= i < plan@.len() - 1 implies plan@[i].end - plan@[i].begin
            == batch by {
            assert(plan@[i].end == plan@[i + 1].begin);
            assert(plan@[i + 1].begin < plan@[i + 1].end <= begin);
        }
    }
    plan
}

/// Plans a range with an optional batch width: absent, one batch
/// covering everything; present, consecutive batches of that width.
pub fn plan(port_start: u32, port_end: u32, batch_width: Option<u32>) -> (plan: Vec<Batch>)
    requires
        port_start <= port_end,
        batch_width matches Some(w) ==> w > 0,
    ensures
        plan_wf(plan@, port_start as int, port_end as int),
        batch_width matches Some(w) ==> forall|i: int|
            0 <= i < plan@.len() ==> plan@[i].end - plan@[i].begin <= w,
        batch_width matches Some(w) ==> forall|i: int|
            0 <= i < plan@.len() - 1 ==> plan@[i].end - plan@[i].begin == w,
        batch_width is None ==> plan@.len() == (if port_start < port_end { 1int } else { 0int }),
{
    match batch_width {
        None => plan_unbatched(port_start, port_end),
        Some(w) => plan_batches(port_start, port_end, w),
    }
}

/// Every port of `[lo, hi)`, and no other, falls in exactly the range
/// of some batch of a well-formed plan: batching never skips a port and
/// never adds one.
pub proof fn lemma_plan_covers(plan: Seq<Batch>, lo: int, hi: int, p: int)
    requires
        plan_wf(plan, lo, hi),
    ensures
        lo <= hi,
        (lo <= p < hi) <==> exists|k: int| #![trigger plan[k]] 0 <= k < plan.len() && plan[k].begin <= p < plan[k].end,
    decreases plan.len(),
{
    if plan.len() == 0 {
    } else {
        let rest = plan.drop_last();
        let last = plan.last();
        let mid = last.begin as int;
        assert(forall|i: int| 0 <= i < rest.len() ==> rest[i] == plan[i]);
        assert(plan_wf(rest, lo, mid));
        lemma_plan_covers(rest, lo, mid, p);
        if lo <= p < hi {
            if p < mid {
                let k = choose|k: int| #![trigger rest[k]] 0 <= k < rest.len() && rest[k].begin <= p < rest[k].end;
                assert(plan[k].begin <= p < plan[k].end);
            } else {
                let k = plan.len() - 1;
                assert(plan[k].begin <= p < plan[k].end);
            }
        }
        if exists|k: int| #![trigger plan[k]] 0 <= k < plan.len() && plan[k].begin <= p < plan[k].end {
            let k = choose|k: int| #![trigger plan[k]] 0 <= k < plan.len() && plan[k].begin <= p < plan[k].end;
            if k < plan.len() - 1 {
                assert(rest[k].begin <= p < rest[k].end);
            }
        }
    }
}

} // verus!
