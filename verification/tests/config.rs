use port_scanner::outcome::{classify_connect, probe_record, ConnectStatus, ProbeOutcome};
use port_scanner::scanner::{ScanRequest, ScanTarget};
use port_scanner::Scanner;

#[test]
fn test_scanner_keeps_timeout() {
    let scanner = Scanner::new(4000);
    assert_eq!(scanner.timeout_millis, 4000);
}

#[test]
fn test_classify_connected_is_open() {
    assert_eq!(classify_connect(ConnectStatus::Connected), ProbeOutcome::Open);
}

#[test]
fn test_classify_expected_failures_are_closed() {
    assert_eq!(classify_connect(ConnectStatus::Refused), ProbeOutcome::Closed);
    assert_eq!(classify_connect(ConnectStatus::TimedOut), ProbeOutcome::Closed);
    assert_eq!(
        classify_connect(ConnectStatus::OtherFailure),
        ProbeOutcome::Closed
    );
}

#[test]
fn test_classify_exhaustion_is_distinguished() {
    assert_eq!(
        classify_connect(ConnectStatus::Exhausted),
        ProbeOutcome::SystemFailure
    );
}

#[test]
fn test_probe_record_pairs_port_and_outcome() {
    let record = probe_record(8080, ConnectStatus::Connected);
    assert_eq!(record.port, 8080);
    assert_eq!(record.outcome, ProbeOutcome::Open);
}

#[test]
fn test_scan_request_accepts_valid() {
    let request =
        ScanRequest::new("127.0.0.1".to_string(), 8000, 8100, 4000, Some(25)).unwrap();
    assert_eq!(request.port_start, 8000);
    assert_eq!(request.port_end, 8100);
    assert_eq!(request.timeout_millis, 4000);
    assert_eq!(request.batch_width, Some(25));
}

#[test]
fn test_scan_request_rejects_programming_errors() {
    assert!(ScanRequest::new("".to_string(), 8000, 8100, 4000, None).is_none());
    assert!(ScanRequest::new("127.0.0.1".to_string(), 8100, 8000, 4000, None).is_none());
    assert!(ScanRequest::new("127.0.0.1".to_string(), 8000, 8100, 4000, Some(0)).is_none());
}

#[test]
fn test_scan_target_fields() {
    let target = ScanTarget::new("127.0.0.1".to_string(), 8080);
    assert_eq!(target.host, "127.0.0.1");
    assert_eq!(target.port, 8080);
}
