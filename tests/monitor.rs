use home_status::monitor::{
    probe_url, response_code, DeviceAction, DeviceEvent, DeviceMonitor, DomainAction, DomainEvent,
    DomainMonitor, DEVICE_PING_INTERVAL_SECS, DOMAIN_TEST_INTERVAL_SECS, ECHO_TIMEOUT_SECS,
    REQUEST_TIMEOUT_SECS,
};
use home_status::status::StatusTable;

fn echo(m: &mut DeviceMonitor, t: &mut StatusTable, latency: Option<u128>) -> DeviceAction {
    m.on_event(t, DeviceEvent::EchoDone { latency_milliseconds: latency })
}

#[test]
fn sequence_follows_scripted_outcomes() {
    let mut t = StatusTable::new();
    let mut m = DeviceMonitor::new("router".to_string(), "10.0.0.1".to_string());
    let mut seen = Vec::new();
    for outcome in [Some(3), Some(4), None, Some(5)] {
        echo(&mut m, &mut t, outcome);
        seen.push(m.sequence);
    }
    assert_eq!(seen, vec![1, 2, 0, 1]);
}

#[test]
fn sequence_wraps_at_counter_width() {
    let mut t = StatusTable::new();
    let mut m = DeviceMonitor::new("router".to_string(), "10.0.0.1".to_string());
    m.sequence = u16::MAX;
    echo(&mut m, &mut t, Some(1));
    assert_eq!(m.sequence, 0);
}

#[test]
fn next_echo_uses_current_sequence() {
    let mut t = StatusTable::new();
    let mut m = DeviceMonitor::new("nas".to_string(), "10.0.0.2".to_string());
    assert_eq!(
        m.on_event(&mut t, DeviceEvent::Started),
        DeviceAction::Echo { sequence: 0, timeout_secs: 1 }
    );
    echo(&mut m, &mut t, Some(2));
    echo(&mut m, &mut t, Some(2));
    assert_eq!(
        m.on_event(&mut t, DeviceEvent::Woke),
        DeviceAction::Echo { sequence: 2, timeout_secs: ECHO_TIMEOUT_SECS }
    );
}

#[test]
fn silent_host_is_recorded_unreachable_after_one_timeout() {
    let mut t = StatusTable::new();
    let mut m = DeviceMonitor::new("printer".to_string(), "192.168.1.9".to_string());
    let first = m.on_event(&mut t, DeviceEvent::Started);
    assert_eq!(first, DeviceAction::Echo { sequence: 0, timeout_secs: 1 });
    let after = echo(&mut m, &mut t, None);
    assert_eq!(after, DeviceAction::Sleep { secs: DEVICE_PING_INTERVAL_SECS });
    assert_eq!(DEVICE_PING_INTERVAL_SECS, 5);
    let snap = t.snapshot();
    assert_eq!(snap.devices.len(), 1);
    assert_eq!(snap.devices[0].name, "printer");
    assert_eq!(snap.devices[0].ip, "192.168.1.9");
    assert_eq!(snap.devices[0].latency_milliseconds, None);
}

#[test]
fn latency_is_recorded() {
    let mut t = StatusTable::new();
    let mut m = DeviceMonitor::new("tv".to_string(), "fe80::1".to_string());
    echo(&mut m, &mut t, Some(17));
    let snap = t.snapshot();
    assert_eq!(snap.devices[0].latency_milliseconds, Some(17));
    assert!(snap.domains.is_empty());
}

#[test]
fn domain_without_response_records_zero() {
    assert_eq!(response_code(None), 0);
    let mut t = StatusTable::new();
    let m = DomainMonitor::new("example.org".to_string());
    let a = m.on_event(&mut t, DomainEvent::Responded { status: None });
    assert_eq!(a, DomainAction::Sleep { secs: 20 });
    assert_eq!(DOMAIN_TEST_INTERVAL_SECS, 20);
    let snap = t.snapshot();
    assert_eq!(snap.domains.len(), 1);
    assert_eq!(snap.domains[0].domain, "example.org");
    assert_eq!(snap.domains[0].status, 0);
}

#[test]
fn domain_error_code_passes_through() {
    assert_eq!(response_code(Some(503)), 503);
    let mut t = StatusTable::new();
    let m = DomainMonitor::new("example.org".to_string());
    m.on_event(&mut t, DomainEvent::Responded { status: Some(503) });
    assert_eq!(t.snapshot().domains[0].status, 503);
    m.on_event(&mut t, DomainEvent::Responded { status: Some(200) });
    let snap = t.snapshot();
    assert_eq!(snap.domains.len(), 1);
    assert_eq!(snap.domains[0].status, 200);
}

#[test]
fn domain_request_targets_root_url() {
    assert_eq!(probe_url(&"example.org".to_string()), "http://example.org/");
    let mut t = StatusTable::new();
    let m = DomainMonitor::new("example.org".to_string());
    assert_eq!(
        m.on_event(&mut t, DomainEvent::Started),
        DomainAction::Request { url: "http://example.org/".to_string(), timeout_secs: 5 }
    );
    assert_eq!(REQUEST_TIMEOUT_SECS, 5);
    assert!(t.snapshot().domains.is_empty());
}
