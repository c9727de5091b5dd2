use home_status::order::compare_names;
use home_status::registry::{DeviceTarget, TargetRegistry};
use home_status::status::{DeviceStatus, DomainStatus, StatusTable};
use std::cmp::Ordering;

fn device(name: &str, latency: Option<u128>) -> DeviceStatus {
    DeviceStatus { name: name.to_string(), ip: format!("ip-of-{}", name), latency_milliseconds: latency }
}

#[test]
fn empty_table_gives_empty_snapshot() {
    let t = StatusTable::new();
    let snap = t.snapshot();
    assert!(snap.devices.is_empty());
    assert!(snap.domains.is_empty());
}

#[test]
fn snapshot_is_sorted_by_name() {
    let mut t = StatusTable::new();
    t.put_device(device("zeta", Some(1)));
    t.put_device(device("alpha", None));
    let names: Vec<String> = t.snapshot().devices.into_iter().map(|d| d.name).collect();
    assert_eq!(names, vec!["alpha", "zeta"]);
}

#[test]
fn domains_sorted_by_name() {
    let mut t = StatusTable::new();
    for d in ["b.org", "c.org", "a.org"] {
        t.put_domain(DomainStatus { domain: d.to_string(), status: 200 });
    }
    let names: Vec<String> = t.snapshot().domains.into_iter().map(|d| d.domain).collect();
    assert_eq!(names, vec!["a.org", "b.org", "c.org"]);
}

#[test]
fn put_replaces_entry_in_place() {
    let mut t = StatusTable::new();
    t.put_device(device("nas", Some(3)));
    t.put_device(device("router", Some(1)));
    t.put_device(device("nas", None));
    let snap = t.snapshot();
    assert_eq!(snap.devices, vec![device("nas", None), device("router", Some(1))]);
}

#[test]
fn repeated_snapshots_are_identical() {
    let mut t = StatusTable::new();
    t.put_device(device("m", Some(9)));
    t.put_device(device("a", None));
    t.put_domain(DomainStatus { domain: "x.net".to_string(), status: 404 });
    let a = t.snapshot();
    let b = t.snapshot();
    assert_eq!(a.devices, b.devices);
    assert_eq!(a.domains, b.domains);
}

#[test]
fn interleaved_writers_leave_whole_records() {
    let mut t = StatusTable::new();
    let mut seen = Vec::new();
    for round in 0..4u128 {
        t.put_device(device("one", Some(round)));
        seen.push(t.snapshot());
        t.put_device(device("two", if round % 2 == 0 { None } else { Some(round * 10) }));
        seen.push(t.snapshot());
    }
    for snap in &seen {
        for d in &snap.devices {
            assert_eq!(d.ip, format!("ip-of-{}", d.name));
        }
    }
    let last = seen.last().unwrap();
    assert_eq!(last.devices, vec![device("one", Some(3)), device("two", Some(30))]);
}

#[test]
fn names_compare_bytewise() {
    let s = |x: &str| x.to_string();
    assert_eq!(compare_names(&s("B"), &s("a")), Ordering::Less);
    assert_eq!(compare_names(&s("a"), &s("ab")), Ordering::Less);
    assert_eq!(compare_names(&s("b"), &s("ab")), Ordering::Greater);
    assert_eq!(compare_names(&s("same"), &s("same")), Ordering::Equal);
    assert_eq!(compare_names(&s(""), &s("")), Ordering::Equal);
    assert_eq!(compare_names(&s("z"), &s("é")), Ordering::Less);
}

#[test]
fn registry_gives_one_monitor_per_target() {
    let r = TargetRegistry {
        devices: vec![
            DeviceTarget { name: "router".to_string(), ip: "10.0.0.1".to_string() },
            DeviceTarget { name: "nas".to_string(), ip: "10.0.0.2".to_string() },
        ],
        domains: vec!["example.org".to_string()],
    };
    let d = r.device_monitors();
    assert_eq!(d.len(), 2);
    assert_eq!(d[1].name, "nas");
    assert_eq!(d[1].ip, "10.0.0.2");
    assert_eq!(d[0].sequence, 0);
    let m = r.domain_monitors();
    assert_eq!(m.len(), 1);
    assert_eq!(m[0].domain, "example.org");
}
