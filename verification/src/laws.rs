//! Properties of a scan, stated over a model of the network.
//!
//! A run's probe results are modelled against a network state: a map
//! from port to the outcome a probe of that port would get. A batch of
//! records is a faithful scan of a range when it probed every port of
//! the range, no port outside it, and recorded each port's outcome as
//! the network gives it. The lemmas here say what any such run
//! reports: only ports of the scanned range, the same open set on every
//! repetition, disjoint sub-ranges giving disjoint results whose union
//! is the full range's result, and a batched run agreeing with an
//! unbatched one.

use vstd::prelude::*;

use crate::outcome::{ProbeOutcome, ProbeRecord};
use crate::plan::{Batch, lemma_plan_covers, plan_wf};
use crate::scanner::{open_ports, open_ports_batches};

verus! {

/// The set of ports a batch of probe records reports open.
pub open spec fn open_port_set(records: Seq<ProbeRecord>) -> Set<u32> {
    Set::new(
        |p: u32|
            exists|i: int|
                0 <= i < records.len() && (#[trigger] records[i]).port == p
                    && records[i].outcome is Open,
    )
}

/// The set of ports in `[lo, hi)` that the network state `net` would
/// answer as open.
pub open spec fn net_open_set(net: Map<u32, ProbeOutcome>, lo: int, hi: int) -> Set<u32> {
    Set::new(|p: u32| lo <= p < hi && net[p] is Open)
}

/// Some record probed port `p`.
pub open spec fn probed(records: Seq<ProbeRecord>, p: u32) -> bool {
    exists|i: int| 0 <= i < records.len() && (#[trigger] records[i]).port == p
}

/// The records are a faithful scan of `[lo, hi)` against the network
/// state `net`: every probed port lies in the range, every port of the
/// range was probed, and each record holds the outcome the network
/// gives for its port. Nothing is said about the records' order, and
/// a port may appear more than once.
pub open spec fn faithful(
    records: Seq<ProbeRecord>,
    net: Map<u32, ProbeOutcome>,
    lo: int,
    hi: int,
) -> bool {
    &&& forall|i: int| 0 <= i < records.len() ==> lo <= (#[trigger] records[i]).port < hi
    &&& forall|i: int|
        0 <= i < records.len() ==> (#[trigger] records[i]).outcome == net[records[i].port]
    &&& forall|p: u32| lo <= p < hi ==> #[trigger] probed(records, p)
}

/// A faithful scan of `[lo, hi)` reports open exactly the ports of the
/// range that the network holds open — whatever order the probes
/// finished in, and however often a port was probed.
pub proof fn lemma_faithful_open_set(
    records: Seq<ProbeRecord>,
    net: Map<u32, ProbeOutcome>,
    lo: int,
    hi: int,
)
    requires
        faithful(records, net, lo, hi),
    ensures
        open_port_set(records) == net_open_set(net, lo, hi),
{
    assert forall|p: u32| open_port_set(records).contains(p) <==> net_open_set(
        net,
        lo,
        hi,
    ).contains(p) by {
        if open_port_set(records).contains(p) {
            let i = choose|i: int|
                0 <= i < records.len() && (#[trigger] records[i]).port == p && records[i].outcome
                    is Open;
            assert(records[i].outcome == net[p]);
        }
        if net_open_set(net, lo, hi).contains(p) {
            assert(probed(records, p));
            let i = choose|i: int| 0 <= i < records.len() && (#[trigger] records[i]).port == p;
            assert(records[i].outcome == net[p]);
            assert(0 <= i < records.len() && records[i].port == p && records[i].outcome is Open);
        }
    }
    assert(open_port_set(records) =~= net_open_set(net, lo, hi));
}

/// A scan reports only ports it probed: when every record's port lies
/// in `[lo, hi)`, so does every port of the result.
pub proof fn lemma_scan_in_range(records: Seq<ProbeRecord>, lo: u32, hi: u32)
    requires
        forall|i: int| 0 <= i < records.len() ==> lo <= (#[trigger] records[i]).port < hi,
    ensures
        forall|j: int|
            0 <= j < open_ports(records).len() ==> lo <= #[trigger] open_ports(records)[j] < hi,
    decreases records.len(),
{
    if records.len() > 0 {
        let rest = records.drop_last();
        assert(forall|i: int| 0 <= i < rest.len() ==> rest[i] == records[i]);
        lemma_scan_in_range(rest, lo, hi);
        let ops = open_ports(records);
        let rest_ops = open_ports(rest);
        assert(lo <= records[records.len() - 1].port < hi);
        assert forall|j: int| 0 <= j < ops.len() implies lo <= #[trigger] ops[j] < hi by {
            if records.last().outcome is Open {
                if j < rest_ops.len() {
                    assert(ops[j] == rest_ops[j]);
                } else {
                    assert(ops[j] == records.last().port);
                }
            } else {
                assert(ops[j] == rest_ops[j]);
            }
        }
    }
}

/// A port stands in a batch's result exactly when some record of the
/// batch probed it and found it open.
pub proof fn lemma_open_ports_membership(records: Seq<ProbeRecord>, p: u32)
    ensures
        open_ports(records).contains(p) <==> exists|i: int|
            0 <= i < records.len() && (#[trigger] records[i]).port == p && records[i].outcome
                is Open,
    decreases records.len(),
{
    if records.len() > 0 {
        let rest = records.drop_last();
        assert(forall|i: int| 0 <= i < rest.len() ==> rest[i] == records[i]);
        lemma_open_ports_membership(rest, p);
        let ops = open_ports(records);
        let rest_ops = open_ports(rest);
        let last = records.last();
        if last.outcome is Open && last.port == p {
            assert(ops[rest_ops.len() as int] == p);
            assert(ops.contains(p));
            assert(records[records.len() - 1].port == p && records[records.len() - 1].outcome
                is Open);
        } else {
            if ops.contains(p) {
                let j = choose|j: int| 0 <= j < ops.len() && ops[j] == p;
                if last.outcome is Open {
                    assert(j < rest_ops.len());
                    assert(rest_ops[j] == p);
                    assert(rest_ops.contains(p));
                } else {
                    assert(rest_ops[j] == p);
                    assert(rest_ops.contains(p));
                }
                let i = choose|i: int|
                    0 <= i < rest.len() && (#[trigger] rest[i]).port == p && rest[i].outcome
                        is Open;
                assert(records[i].port == p && records[i].outcome is Open);
            }
            if exists|i: int|
                0 <= i < records.len() && (#[trigger] records[i]).port == p && records[i].outcome
                    is Open {
                let i = choose|i: int|
                    0 <= i < records.len() && (#[trigger] records[i]).port == p
                        && records[i].outcome is Open;
                assert(i < records.len() - 1);
                assert(rest[i].port == p && rest[i].outcome is Open);
                assert(rest_ops.contains(p));
                let j = choose|j: int| 0 <= j < rest_ops.len() && rest_ops[j] == p;
                assert(ops[j] == p);
                assert(ops.contains(p));
            }
        }
    }
}

/// The result sequence and the result set report the same ports: the
/// ordered open ports of a batch, taken as a set, are exactly its open
/// port set.
pub proof fn lemma_open_ports_to_set(records: Seq<ProbeRecord>)
    ensures
        open_ports(records).to_set() == open_port_set(records),
{
    assert forall|p: u32| open_ports(records).to_set().contains(p) <==> open_port_set(
        records,
    ).contains(p) by {
        lemma_open_ports_membership(records, p);
    }
    assert(open_ports(records).to_set() =~= open_port_set(records));
}

/// The ports of two concatenated result sequences, as a set: the union
/// of each sequence's ports.
proof fn lemma_concat_to_set(a: Seq<u32>, b: Seq<u32>)
    ensures
        (a + b).to_set() == a.to_set().union(b.to_set()),
{
    assert forall|x: u32| (a + b).to_set().contains(x) <==> a.to_set().contains(x)
        || b.to_set().contains(x) by {
        if (a + b).contains(x) {
            let i = choose|i: int| 0 <= i < (a + b).len() && (a + b)[i] == x;
            if i < a.len() {
                assert(a[i] == x);
                assert(a.contains(x));
            } else {
                assert(b[i - a.len()] == x);
                assert(b.contains(x));
            }
        }
        if a.contains(x) {
            let i = choose|i: int| 0 <= i < a.len() && a[i] == x;
            assert((a + b)[i] == x);
            assert((a + b).contains(x));
        }
        if b.contains(x) {
            let i = choose|i: int| 0 <= i < b.len() && b[i] == x;
            assert((a + b)[a.len() + i] == x);
            assert((a + b).contains(x));
        }
    }
    assert((a + b).to_set() =~= a.to_set().union(b.to_set()));
}

/// A batched run's concatenated result sequence reports, as a set, the
/// union of what its batches report.
pub proof fn lemma_batches_to_set(reports: Seq<Seq<ProbeRecord>>)
    ensures
        open_ports_batches(reports).to_set() == opens_of_batches(reports),
    decreases reports.len(),
{
    if reports.len() == 0 {
        assert(open_ports_batches(reports).to_set() =~= opens_of_batches(reports));
    } else {
        lemma_batches_to_set(reports.drop_last());
        lemma_concat_to_set(
            open_ports_batches(reports.drop_last()),
            open_ports(reports.last()),
        );
        lemma_open_ports_to_set(reports.last());
    }
}

/// Scanning is repeatable: two faithful scans of the same range against
/// the same network state report the same open ports, whatever order
/// either run's probes completed in.
pub proof fn lemma_scan_repeatable(
    net: Map<u32, ProbeOutcome>,
    lo: int,
    hi: int,
    first: Seq<ProbeRecord>,
    second: Seq<ProbeRecord>,
)
    requires
        faithful(first, net, lo, hi),
        faithful(second, net, lo, hi),
    ensures
        open_port_set(first) == open_port_set(second),
        open_ports(first).to_set() == open_ports(second).to_set(),
{
    lemma_faithful_open_set(first, net, lo, hi);
    lemma_faithful_open_set(second, net, lo, hi);
    lemma_open_ports_to_set(first);
    lemma_open_ports_to_set(second);
}

/// Faithful scans of two adjacent ranges report disjoint open sets
/// whose union is what one faithful scan of the joined range reports.
pub proof fn lemma_split_ranges(
    net: Map<u32, ProbeOutcome>,
    lo: int,
    mid: int,
    hi: int,
    left: Seq<ProbeRecord>,
    right: Seq<ProbeRecord>,
    full: Seq<ProbeRecord>,
)
    requires
        lo <= mid <= hi,
        faithful(left, net, lo, mid),
        faithful(right, net, mid, hi),
        faithful(full, net, lo, hi),
    ensures
        open_port_set(left).disjoint(open_port_set(right)),
        open_port_set(left).union(open_port_set(right)) == open_port_set(full),
        open_ports(left).to_set().disjoint(open_ports(right).to_set()),
        open_ports(left).to_set().union(open_ports(right).to_set()) == open_ports(full).to_set(),
{
    lemma_faithful_open_set(left, net, lo, mid);
    lemma_faithful_open_set(right, net, mid, hi);
    lemma_faithful_open_set(full, net, lo, hi);
    lemma_open_ports_to_set(left);
    lemma_open_ports_to_set(right);
    lemma_open_ports_to_set(full);
    assert(net_open_set(net, lo, mid).union(net_open_set(net, mid, hi)) =~= net_open_set(
        net,
        lo,
        hi,
    ));
}

/// The open ports of a whole batched run, as a set: the union of what
/// each batch reports.
pub open spec fn opens_of_batches(reports: Seq<Seq<ProbeRecord>>) -> Set<u32>
    decreases reports.len(),
{
    if reports.len() == 0 {
        Set::empty()
    } else {
        opens_of_batches(reports.drop_last()).union(open_port_set(reports.last()))
    }
}

/// A batched run over a well-formed plan of `[lo, hi)`, each batch a
/// faithful scan of its sub-range, reports in total exactly the ports
/// of `[lo, hi)` the network holds open.
pub proof fn lemma_batches_open_net(
    net: Map<u32, ProbeOutcome>,
    plan: Seq<Batch>,
    reports: Seq<Seq<ProbeRecord>>,
    lo: int,
    hi: int,
)
    requires
        plan_wf(plan, lo, hi),
        reports.len() == plan.len(),
        forall|k: int|
            0 <= k < plan.len() ==> faithful(
                #[trigger] reports[k],
                net,
                plan[k].begin as int,
                plan[k].end as int,
            ),
    ensures
        opens_of_batches(reports) == net_open_set(net, lo, hi),
    decreases plan.len(),
{
    if plan.len() == 0 {
        assert(opens_of_batches(reports) =~= net_open_set(net, lo, hi));
    } else {
        let rest_plan = plan.drop_last();
        let rest_reports = reports.drop_last();
        let mid = plan.last().begin as int;
        assert(forall|i: int| 0 <= i < rest_plan.len() ==> rest_plan[i] == plan[i]);
        assert(forall|i: int| 0 <= i < rest_reports.len() ==> rest_reports[i] == reports[i]);
        assert(plan_wf(rest_plan, lo, mid));
        lemma_plan_covers(rest_plan, lo, mid, 0);
        lemma_batches_open_net(net, rest_plan, rest_reports, lo, mid);
        assert(faithful(reports[plan.len() - 1], net, mid, hi));
        lemma_faithful_open_set(reports.last(), net, mid, hi);
        assert(net_open_set(net, lo, mid).union(net_open_set(net, mid, hi)) =~= net_open_set(
            net,
            lo,
            hi,
        ));
    }
}

/// Batching does not change the result: a batched run over any
/// well-formed plan of `[lo, hi)` reports the same open-port set as one
/// faithful unbatched scan of `[lo, hi)` — in particular, no port of a
/// trailing partial batch is skipped.
pub proof fn lemma_batched_matches_unbatched(
    net: Map<u32, ProbeOutcome>,
    plan: Seq<Batch>,
    reports: Seq<Seq<ProbeRecord>>,
    lo: int,
    hi: int,
    full: Seq<ProbeRecord>,
)
    requires
        plan_wf(plan, lo, hi),
        reports.len() == plan.len(),
        forall|k: int|
            0 <= k < plan.len() ==> faithful(
                #[trigger] reports[k],
                net,
                plan[k].begin as int,
                plan[k].end as int,
            ),
        faithful(full, net, lo, hi),
    ensures
        opens_of_batches(reports) == open_port_set(full),
        open_ports_batches(reports).to_set() == open_ports(full).to_set(),
{
    lemma_batches_open_net(net, plan, reports, lo, hi);
    lemma_faithful_open_set(full, net, lo, hi);
    lemma_batches_to_set(reports);
    lemma_open_ports_to_set(full);
}

} // verus!
