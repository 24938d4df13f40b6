//! The scanner configuration, the scan data model, and the collection
//! of open endpoints out of probe results.
//!
//! A scan fans out one probe per port of a batch and waits for all of
//! them; the unverified shell hands the finished batch back as a vector
//! of [`ProbeRecord`]s in whatever order the probes completed. The
//! functions here distill those records into the open endpoints, batch
//! after batch, preserving completion order within a batch and batch
//! order across batches.

use vstd::prelude::*;

use crate::outcome::{ProbeOutcome, ProbeRecord};

verus! {

/// A port scanner's configuration: every probe of every run shares one
/// connection timeout, fixed at construction.
pub struct Scanner {
    /// The per-connection timeout, in milliseconds.
    pub timeout_millis: u64,
}

impl Scanner {
    /// Builds a scanner whose probes all use the given timeout.
    pub fn new(timeout_millis: u64) -> (s: Scanner)
        ensures
            s.timeout_millis == timeout_millis,
    {
        Scanner { timeout_millis }
    }
}

/// One (host, port) pair to probe, built transiently per attempt.
pub struct ScanTarget {
    /// The host to connect to.
    pub host: String,
    /// The port to connect to.
    pub port: u32,
}

impl ScanTarget {
    /// A target is valid when the host is non-empty and the port fits
    /// the TCP port range.
    pub open spec fn valid(self) -> bool {
        self.host@.len() > 0 && self.port <= 65535
    }

    /// Builds a probe target for one port of a scan.
    pub fn new(host: String, port: u32) -> (t: ScanTarget)
        requires
            host@.len() > 0,
            port <= 65535,
        ensures
            t.host@ == host@,
            t.port == port,
            t.valid(),
    {
        ScanTarget { host, port }
    }
}

/// One scan as the caller requests it: a host, a half-open port range,
/// the per-connection timeout, and an optional batch width.
pub struct ScanRequest {
    /// The host every port of the range is probed on.
    pub host: String,
    /// The first port of the range.
    pub port_start: u32,
    /// One past the last port of the range.
    pub port_end: u32,
    /// The per-connection timeout, in milliseconds.
    pub timeout_millis: u64,
    /// How many ports to probe at once; absent, the whole range is one
    /// fan-out.
    pub batch_width: Option<u32>,
}

impl ScanRequest {
    /// A request is valid when the host is non-empty, the range is
    /// ordered, and a batch width, if given, is positive.
    pub open spec fn valid(self) -> bool {
        &&& self.host@.len() > 0
        &&& self.port_start <= self.port_end
        &&& (self.batch_width matches Some(w) ==> w > 0)
    }

    /// Builds a scan request, rejecting the programming errors a run
    /// must never start from: an empty host, a backwards range, or a
    /// zero batch width.
    pub fn new(
        host: String,
        port_start: u32,
        port_end: u32,
        timeout_millis: u64,
        batch_width: Option<u32>,
    ) -> (r: Option<ScanRequest>)
        ensures
            r is Some <==> (host@.len() > 0 && port_start <= port_end && (batch_width matches Some(
                w,
            ) ==> w > 0)),
            r matches Some(q) ==> {
                &&& q.host@ == host@
                &&& q.port_start == port_start
                &&& q.port_end == port_end
                &&& q.timeout_millis == timeout_millis
                &&& q.batch_width == batch_width
                &&& q.valid()
            },
    {
        let host_ok = !host.as_str().is_empty();
        let width_ok = match batch_width {
            Some(w) => w > 0,
            None => true,
        };
        if host_ok && port_start <= port_end && width_ok {
            Some(ScanRequest { host, port_start, port_end, timeout_millis, batch_width })
        } else {
            None
        }
    }
}

/// One open endpoint found by a scan: a host together with a port that
/// accepted a connection.
#[derive(Debug)]
pub struct Endpoint {
    /// The host the open port was found on.
    pub host: String,
    /// The open port.
    pub port: u32,
}

impl PartialEq for Endpoint {
    fn eq(&self, other: &Endpoint) -> (r: bool) {
        self.port == other.port && self.host == other.host
    }
}

impl vstd::std_specs::cmp::PartialEqSpecImpl for Endpoint {
    open spec fn obeys_eq_spec() -> bool {
        true
    }

    open spec fn eq_spec(&self, other: &Endpoint) -> bool {
        self.port == other.port && self.host@ == other.host@
    }
}

/// The ports of the records whose probe found the port open, in the
/// order the records stand: what a batch of probe results contributes
/// to the scan's result.
pub open spec fn open_ports(records: Seq<ProbeRecord>) -> Seq<u32>
    decreases records.len(),
{
    if records.len() == 0 {
        Seq::empty()
    } else if records.last().outcome is Open {
        open_ports(records.drop_last()).push(records.last().port)
    } else {
        open_ports(records.drop_last())
    }
}

/// Appends to `acc` one endpoint on `host` for every record of
/// `records` whose probe found the port open, keeping the records'
/// order and dropping every closed, failed, and invalid probe.
pub fn extend_with_open(acc: &mut Vec<Endpoint>, host: &String, records: &Vec<ProbeRecord>)
    ensures
        final(acc)@.len() == old(acc)@.len() + open_ports(records@).len(),
        forall|j: int| 0 <= j < old(acc)@.len() ==> final(acc)@[j] == old(acc)@[j],
        forall|j: int|
            0 <= j < open_ports(records@).len() ==> final(acc)@[old(acc)@.len() + j].port
                == open_ports(records@)[j],
        forall|j: int| #![trigger final(acc)@[old(acc)@.len() + j]]
            0 <= j < open_ports(records@).len() ==> final(acc)@[old(acc)@.len() + j].host@
                == host@,
{
    let mut i: usize = 0;
    while i < records.len()
        invariant
            i <= records.len(),
            acc@.len() == old(acc)@.len() + open_ports(records@.take(i as int)).len(),
            forall|j: int| 0 <= j < old(acc)@.len() ==> acc@[j] == old(acc)@[j],
            forall|j: int|
                0 <= j < open_ports(records@.take(i as int)).len() ==> acc@[old(acc)@.len()
                    + j].port == open_ports(records@.take(i as int))[j],
            forall|j: int| #![trigger acc@[old(acc)@.len() + j]]
                0 <= j < open_ports(records@.take(i as int)).len() ==> acc@[old(acc)@.len()
                    + j].host@ == host@,
        decreases records.len() - i,
    {
        proof {
            assert(records@.take(i as int + 1).drop_last() =~= records@.take(i as int));
            assert(records@.take(i as int + 1).last() == records@[i as int]);
        }
        let record = records[i];
        match record.outcome {
            ProbeOutcome::Open => {
                acc.push(Endpoint { host: host.clone(), port: record.port });
            },
            _ => {},
        }
        i = i + 1;
    }
    proof {
        assert(records@.take(records@.len() as int) =~= records@);
        let ops = open_ports(records@);
        assert forall|j: int| 0 <= j < ops.len() implies acc@[old(acc)@.len() + j].port
            == ops[j] by {
            assert(acc@[old(acc)@.len() + j].port == open_ports(records@.take(i as int))[j]);
        }
        assert forall|j: int| #![trigger acc@[old(acc)@.len() + j]] 0 <= j < ops.len() implies acc@[old(
            acc,
        )@.len() + j].host@ == host@ by {
            assert(acc@[old(acc)@.len() + j].host@ == host@);
        }
    }
}

/// The open endpoints of one batch of probe results: one endpoint on
/// `host` per record that found its port open, in the records' order.
pub fn collect_open(host: &String, records: &Vec<ProbeRecord>) -> (found: Vec<Endpoint>)
    ensures
        found@.len() == open_ports(records@).len(),
        forall|j: int|
            0 <= j < open_ports(records@).len() ==> found@[j].port == open_ports(records@)[j],
        forall|j: int| #![trigger found@[j]]
            0 <= j < open_ports(records@).len() ==> found@[j].host@ == host@,
{
    let mut found: Vec<Endpoint> = Vec::new();
    extend_with_open(&mut found, host, records);
    proof {
        assert forall|j: int| #![trigger found@[j]]
            0 <= j < open_ports(records@).len() implies found@[j].host@ == host@ by {
            assert(found@[0 + j].host@ == host@);
        }
    }
    found
}

/// The views of a sequence of record batches.
pub open spec fn report_views(reports: Seq<Vec<ProbeRecord>>) -> Seq<Seq<ProbeRecord>> {
    Seq::new(reports.len(), |k: int| reports[k]@)
}

/// The open ports of a whole run, batch by batch: the concatenation of
/// each batch's open ports, in batch order.
pub open spec fn open_ports_batches(reports: Seq<Seq<ProbeRecord>>) -> Seq<u32>
    decreases reports.len(),
{
    if reports.len() == 0 {
        Seq::empty()
    } else {
        open_ports_batches(reports.drop_last()) + open_ports(reports.last())
    }
}

/// The open endpoints of a whole batched run: the batches' open
/// endpoints concatenated in batch order, each batch's in its own
/// completion order.
pub fn collect_open_batches(host: &String, reports: &Vec<Vec<ProbeRecord>>) -> (found: Vec<
    Endpoint,
>)
    ensures
        found@.len() == open_ports_batches(report_views(reports@)).len(),
        forall|j: int|
            0 <= j < open_ports_batches(report_views(reports@)).len() ==> found@[j].port
                == open_ports_batches(report_views(reports@))[j],
        forall|j: int| #![trigger found@[j]]
            0 <= j < open_ports_batches(report_views(reports@)).len() ==> found@[j].host@
                == host@,
{
    let ghost all = report_views(reports@);
    let mut found: Vec<Endpoint> = Vec::new();
    let mut k: usize = 0;
    while k < reports.len()
        invariant
            k <= reports.len(),
            all == report_views(reports@),
            found@.len() == open_ports_batches(all.take(k as int)).len(),
            forall|j: int|
                0 <= j < open_ports_batches(all.take(k as int)).len() ==> found@[j].port
                    == open_ports_batches(all.take(k as int))[j],
            forall|j: int| #![trigger found@[j]]
                0 <= j < open_ports_batches(all.take(k as int)).len() ==> found@[j].host@
                    == host@,
        decreases reports.len() - k,
    {
        let ghost prev = found@;
        let ghost batch = reports@[k as int]@;
        proof {
            assert(all.take(k as int + 1).drop_last() =~= all.take(k as int));
            assert(all.take(k as int + 1).last() == batch);
        }
        extend_with_open(&mut found, host, &reports[k]);
        proof {
            let old_ops = open_ports_batches(all.take(k as int));
            let new_ops = open_ports_batches(all.take(k as int + 1));
            assert(new_ops == old_ops + open_ports(batch));
            assert forall|j: int| 0 <= j < new_ops.len() implies found@[j].port
                == new_ops[j] by {
                if j < old_ops.len() {
                    assert(found@[j] == prev[j]);
                    assert(new_ops[j] == old_ops[j]);
                } else {
                    let jj = j - old_ops.len();
                    assert(found@[prev.len() + jj].port == open_ports(batch)[jj]);
                    assert(prev.len() + jj == j);
                    assert(new_ops[j] == open_ports(batch)[jj]);
                }
            }
            assert forall|j: int| #![trigger found@[j]] 0 <= j < new_ops.len() implies found@[j].host@
                == host@ by {
                if j < old_ops.len() {
                    assert(found@[j] == prev[j]);
                } else {
                    let jj = j - old_ops.len();
                    assert(found@[prev.len() + jj].host@ == host@);
                    assert(prev.len() + jj == j);
                }
            }
        }
        k = k + 1;
    }
    proof {
        assert(all.take(reports@.len() as int) =~= all);
    }
    found
}

} // verus!
