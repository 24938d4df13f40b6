use port_scanner::outcome::{ProbeOutcome, ProbeRecord};
use port_scanner::plan::plan_batches;
use port_scanner::scanner::{collect_open, collect_open_batches, Endpoint};

fn ep(host: &str, port: u32) -> Endpoint {
    Endpoint { host: host.to_string(), port }
}

fn probe_range(lo: u32, hi: u32, listeners: &[u32]) -> Vec<ProbeRecord> {
    let mut records = Vec::new();
    for port in lo..hi {
        let outcome = if listeners.contains(&port) {
            ProbeOutcome::Open
        } else {
            ProbeOutcome::Closed
        };
        records.push(ProbeRecord { port, outcome });
    }
    records
}

#[test]
fn test_run() {
    let host = "127.0.0.1".to_string();
    let records = probe_range(8000, 8100, &[8080, 8081]);
    let found = collect_open(&host, &records);
    assert_eq!(found, vec![ep("127.0.0.1", 8080), ep("127.0.0.1", 8081)]);
}

#[test]
fn test_batched() {
    let host = "127.0.0.1".to_string();
    let mut reports = Vec::new();
    for batch in plan_batches(9000, 9100, 25) {
        reports.push(probe_range(batch.begin, batch.end, &[9080, 9081]));
    }
    let found = collect_open_batches(&host, &reports);
    assert_eq!(found, vec![ep("127.0.0.1", 9080), ep("127.0.0.1", 9081)]);
}

#[test]
fn test_multiple_futures() {
    let host = "127.0.0.1".to_string();
    let listeners = [5000, 5050, 5051, 5052];
    let first = collect_open(&host, &probe_range(5000, 5025, &listeners));
    let second = collect_open(&host, &probe_range(5025, 5100, &listeners));
    assert_eq!(first, vec![ep("127.0.0.1", 5000)]);
    assert_eq!(
        second,
        vec![ep("127.0.0.1", 5050), ep("127.0.0.1", 5051), ep("127.0.0.1", 5052)]
    );
}

#[test]
fn test_collect_keeps_completion_order() {
    let host = "10.0.0.9".to_string();
    let records = vec![
        ProbeRecord { port: 44, outcome: ProbeOutcome::Open },
        ProbeRecord { port: 41, outcome: ProbeOutcome::Closed },
        ProbeRecord { port: 42, outcome: ProbeOutcome::Open },
        ProbeRecord { port: 40, outcome: ProbeOutcome::Open },
    ];
    let found = collect_open(&host, &records);
    assert_eq!(
        found,
        vec![ep("10.0.0.9", 44), ep("10.0.0.9", 42), ep("10.0.0.9", 40)]
    );
}

#[test]
fn test_collect_drops_failures_silently() {
    let host = "127.0.0.1".to_string();
    let records = vec![
        ProbeRecord { port: 1, outcome: ProbeOutcome::Closed },
        ProbeRecord { port: 2, outcome: ProbeOutcome::SystemFailure },
        ProbeRecord { port: 3, outcome: ProbeOutcome::InvalidAddress },
        ProbeRecord { port: 4, outcome: ProbeOutcome::Open },
    ];
    let found = collect_open(&host, &records);
    assert_eq!(found, vec![ep("127.0.0.1", 4)]);
}

#[test]
fn test_collect_nothing_open() {
    let host = "127.0.0.1".to_string();
    let records = probe_range(6000, 6050, &[]);
    let found = collect_open(&host, &records);
    assert!(found.is_empty());
}

#[test]
fn test_same_open_set_in_any_completion_order() {
    let host = "127.0.0.1".to_string();
    let forward = probe_range(7000, 7010, &[7002, 7007]);
    let mut backward = forward.clone();
    backward.reverse();
    let mut ports_fwd: Vec<u32> =
        collect_open(&host, &forward).iter().map(|e| e.port).collect();
    let mut ports_bwd: Vec<u32> =
        collect_open(&host, &backward).iter().map(|e| e.port).collect();
    ports_fwd.sort();
    ports_bwd.sort();
    assert_eq!(ports_fwd, ports_bwd);
    assert_eq!(ports_fwd, vec![7002, 7007]);
}

#[test]
fn test_batched_agrees_with_unbatched() {
    let host = "127.0.0.1".to_string();
    let listeners = [3000, 3004, 3009];
    let mut reports = Vec::new();
    for batch in plan_batches(3000, 3010, 3) {
        reports.push(probe_range(batch.begin, batch.end, &listeners));
    }
    let batched = collect_open_batches(&host, &reports);
    let unbatched = collect_open(&host, &probe_range(3000, 3010, &listeners));
    let mut batched_ports: Vec<u32> = batched.iter().map(|e| e.port).collect();
    let mut unbatched_ports: Vec<u32> = unbatched.iter().map(|e| e.port).collect();
    batched_ports.sort();
    unbatched_ports.sort();
    assert_eq!(batched_ports, unbatched_ports);
    assert_eq!(batched_ports, vec![3000, 3004, 3009]);
}
