use port_sniffer::probe::PortOutcome;
use port_sniffer::request::end_port_guard;
use port_sniffer::request::start_port_guard;
use port_sniffer::request::IpAddress;
use port_sniffer::request::ScanRequest;
use port_sniffer::scanner::ScanSession;

fn request(start: u16, end: u16) -> ScanRequest {
    match ScanRequest::new(IpAddress::V4(127, 0, 0, 1), start, end) {
        Some(req) => req,
        None => panic!("the request should be valid"),
    }
}

/// Runs a whole scan: probes report in the order of `events`, each event
/// being a port and whether it was found open.
fn run_scan(start: u16, end: u16, events: &[(u16, bool)]) -> Vec<u16> {
    let req = request(start, end);
    let mut session = ScanSession::new(&req);
    for &(port, is_open) in events {
        assert!(session.is_pending(port));
        session.record_outcome(port, is_open);
    }
    assert!(session.is_complete());
    session.finish()
}

#[test]
fn start_guard_rejects_port_zero() {
    assert!(!start_port_guard(&0));
    assert!(start_port_guard(&1));
    assert!(start_port_guard(&65535));
}

#[test]
fn end_guard_accepts_all_u16_ports() {
    assert!(end_port_guard(&1));
    assert!(end_port_guard(&65535));
}

#[test]
fn request_rejects_start_port_zero() {
    assert!(ScanRequest::new(IpAddress::V4(127, 0, 0, 1), 0, 100).is_none());
}

#[test]
fn request_keeps_its_fields() {
    let req = request(10, 20);
    assert_eq!(req.start_port, 10);
    assert_eq!(req.end_port, 20);
}

#[test]
fn ports_to_probe_is_the_half_open_range() {
    let req = request(1, 5);
    assert_eq!(req.ports_to_probe(), vec![1, 2, 3, 4]);
}

#[test]
fn end_port_is_never_probed() {
    let req = request(10, 20);
    let ports = req.ports_to_probe();
    assert!(ports.contains(&10));
    assert!(ports.contains(&19));
    assert!(!ports.contains(&20));
}

#[test]
fn degenerate_range_probes_nothing() {
    let req = request(5, 5);
    assert!(req.ports_to_probe().is_empty());
    let session = ScanSession::new(&req);
    assert!(session.is_complete());
    assert!(session.finish().is_empty());
}

#[test]
fn inverted_range_probes_nothing() {
    let req = request(9, 3);
    assert!(req.ports_to_probe().is_empty());
    let session = ScanSession::new(&req);
    assert!(session.is_complete());
    assert!(session.finish().is_empty());
}

#[test]
fn outcome_classifies_connects() {
    let open = PortOutcome::of_connect(80, true);
    assert!(open.is_open());
    assert!(matches!(open, PortOutcome::Open(80)));
    let closed = PortOutcome::of_connect(81, false);
    assert!(!closed.is_open());
    assert!(matches!(closed, PortOutcome::Closed));
}

#[test]
fn report_is_sorted_whatever_the_arrival_order() {
    let events = [(7u16, true), (3, true), (5, false), (9, true), (4, false), (6, true), (8, false)];
    let result = run_scan(3, 10, &events);
    assert_eq!(result, vec![3, 6, 7, 9]);
}

#[test]
fn sparse_open_set_in_a_large_range() {
    // A large fan-out: 10_000 probes, exactly four of them open,
    // reporting in an arbitrary interleaving (here: descending).
    let open_ports = [22u16, 80, 443, 8080];
    let mut events = Vec::new();
    for port in (1u16..10001).rev() {
        events.push((port, open_ports.contains(&port)));
    }
    let result = run_scan(1, 10001, &events);
    assert_eq!(result, vec![22, 80, 443, 8080]);
}

#[test]
fn fully_closed_range_completes_with_empty_report() {
    // One thousand refused probes: none is an error, the scan runs to the
    // end and reports nothing.
    let events: Vec<(u16, bool)> = (2000u16..3000).map(|p| (p, false)).collect();
    let result = run_scan(2000, 3000, &events);
    assert!(result.is_empty());
}

#[test]
fn identical_listeners_give_identical_reports() {
    // The same target scanned twice: the probes complete in different
    // orders, the reports are identical.
    let open_ports = [25u16, 110, 143];
    let mut ascending = Vec::new();
    for port in 20u16..200 {
        ascending.push((port, open_ports.contains(&port)));
    }
    let mut descending: Vec<(u16, bool)> = ascending.clone();
    descending.reverse();
    let first = run_scan(20, 200, &ascending);
    let second = run_scan(20, 200, &descending);
    assert_eq!(first, second);
    assert_eq!(first, vec![25, 110, 143]);
}

#[test]
fn listener_on_the_end_port_is_invisible() {
    // Port 30 listens, but the range is [20, 30): it is never probed and
    // never reported.
    let req = request(20, 30);
    assert!(!req.ports_to_probe().contains(&30));
    let events: Vec<(u16, bool)> = (20u16..30).map(|p| (p, false)).collect();
    let result = run_scan(20, 30, &events);
    assert!(result.is_empty());
}

#[test]
fn pending_flags_track_reports() {
    let req = request(1, 4);
    let mut session = ScanSession::new(&req);
    assert_eq!(session.start_port(), 1);
    assert_eq!(session.end_port(), 4);
    assert!(!session.is_complete());
    assert!(session.is_pending(2));
    session.record_outcome(2, true);
    assert!(!session.is_pending(2));
    assert!(session.is_pending(1));
    assert!(session.is_pending(3));
    assert!(!session.is_complete());
    session.record_outcome(1, false);
    session.record_outcome(3, true);
    assert!(session.is_complete());
    assert_eq!(session.finish(), vec![2, 3]);
}
