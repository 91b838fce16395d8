use web_provider::errors::ProviderError;
use web_provider::unit_provider::UnitProvider;
use web_provider::units::{Phase, UnitStatus, WorkloadUnit};
use web_provider::utils::Filter;

fn unit(name: &str, namespace: &str, payload: &str) -> WorkloadUnit {
    WorkloadUnit {
        name: if name.is_empty() { None } else { Some(name.to_owned()) },
        namespace: if namespace.is_empty() { None } else { Some(namespace.to_owned()) },
        payload: payload.to_owned(),
        status: None,
    }
}

fn assert_rfc3339(s: &str) {
    let b = s.as_bytes();
    assert_eq!(b.len(), 20, "timestamp {:?} should be 20 bytes", s);
    for (i, c) in b.iter().enumerate() {
        match i {
            4 | 7 => assert_eq!(*c, b'-', "timestamp {:?}", s),
            10 => assert_eq!(*c, b'T', "timestamp {:?}", s),
            13 | 16 => assert_eq!(*c, b':', "timestamp {:?}", s),
            19 => assert_eq!(*c, b'Z', "timestamp {:?}", s),
            _ => assert!(c.is_ascii_digit(), "timestamp {:?}", s),
        }
    }
    let month: u32 = s[5..7].parse().unwrap();
    let day: u32 = s[8..10].parse().unwrap();
    let hour: u32 = s[11..13].parse().unwrap();
    let minute: u32 = s[14..16].parse().unwrap();
    let second: u32 = s[17..19].parse().unwrap();
    assert!((1..=12).contains(&month));
    assert!((1..=31).contains(&day));
    assert!(hour <= 23);
    assert!(minute <= 59);
    assert!(second <= 60);
}

#[test]
fn create_twice_second_payload_wins() {
    let mut p = UnitProvider::new();
    p.create_pod(&unit("web", "default", "first")).unwrap();
    p.create_pod(&unit("web", "default", "second")).unwrap();
    let pods = p.get_pods().unwrap();
    assert_eq!(pods.len(), 1);
    assert_eq!(pods[0].payload, "second");
    let stored = p.get_pod("default", "web").unwrap();
    assert_eq!(stored.payload, "second");
    assert_eq!(stored.status.as_ref().unwrap().phase, Some(Phase::Running));
}

#[test]
fn create_forces_phase_to_running() {
    let mut p = UnitProvider::new();
    let mut u = unit("job", "", "payload");
    u.status = Some(UnitStatus {
        phase: Some(Phase::Failed),
        message: Some("boom".to_owned()),
        reason: None,
    });
    p.create_pod(&u).unwrap();
    let status = p.get_pod_status("", "job").unwrap();
    assert_eq!(status.phase, Some(Phase::Running));
    assert_eq!(status.message.as_deref(), Some("boom"));
}

#[test]
fn update_missing_key_is_silent_noop() {
    let mut p = UnitProvider::new();
    assert!(p.update_pod(&unit("ghost", "default", "x")).is_ok());
    assert_eq!(p.get_pod("default", "ghost").unwrap_err(), ProviderError::NotFound);
    assert!(p.get_pods().unwrap().is_empty());
}

#[test]
fn update_existing_replaces_verbatim() {
    let mut p = UnitProvider::new();
    p.create_pod(&unit("web", "default", "v1")).unwrap();
    let mut replacement = unit("web", "default", "v2");
    replacement.status = Some(UnitStatus {
        phase: Some(Phase::Failed),
        message: None,
        reason: Some("OOM".to_owned()),
    });
    p.update_pod(&replacement).unwrap();
    let stored = p.get_pod("default", "web").unwrap();
    assert_eq!(stored.payload, "v2");
    // update takes the status as-is: no phase coercion.
    assert_eq!(stored.status.as_ref().unwrap().phase, Some(Phase::Failed));
}

#[test]
fn delete_twice_succeeds_both_times() {
    let mut p = UnitProvider::new();
    p.create_pod(&unit("web", "default", "S")).unwrap();
    assert!(p.delete_pod(&unit("web", "", "")).is_ok());
    assert!(p.delete_pod(&unit("web", "", "")).is_ok());
    assert!(p.get_pods().unwrap().is_empty());
    assert_eq!(p.get_pod("", "web").unwrap_err(), ProviderError::NotFound);
}

#[test]
fn namespace_filter_on_get() {
    let mut p = UnitProvider::new();
    p.create_pod(&unit("svc", "ns-a", "S")).unwrap();
    assert!(p.get_pod("ns-a", "svc").is_ok());
    assert_eq!(p.get_pod("ns-b", "svc").unwrap_err(), ProviderError::NotFound);
    assert!(p.get_pod("", "svc").is_ok());
}

#[test]
fn get_status_ignores_namespace() {
    let mut p = UnitProvider::new();
    p.create_pod(&unit("svc", "ns-a", "S")).unwrap();
    // asymmetric with get_pod: the namespace argument is not a filter here
    assert!(p.get_pod_status("ns-b", "svc").is_ok());
}

#[test]
fn get_status_missing_unit_or_status_fails() {
    let p = UnitProvider::new();
    assert_eq!(p.get_pod_status("", "nobody").unwrap_err(), ProviderError::NotFound);
}

#[test]
fn unit_without_name_uses_empty_key() {
    let mut p = UnitProvider::new();
    p.create_pod(&unit("", "default", "anon")).unwrap();
    let stored = p.get_pod("default", "").unwrap();
    assert_eq!(stored.payload, "anon");
}

#[test]
fn capacity_is_constant() {
    let mut p = UnitProvider::new();
    let expected = vec![
        ("cpu".to_owned(), "20".to_owned()),
        ("memory".to_owned(), "100Gi".to_owned()),
        ("pods".to_owned(), "20".to_owned()),
    ];
    assert_eq!(p.capacity().unwrap(), expected);
    p.create_pod(&unit("web", "default", "S")).unwrap();
    assert_eq!(p.capacity().unwrap(), expected);
    p.delete_pod(&unit("web", "", "")).unwrap();
    assert_eq!(p.capacity().unwrap(), expected);
}

#[test]
fn node_conditions_fresh_and_well_formed() {
    let p = UnitProvider::new();
    let first = p.node_conditions().unwrap();
    assert_eq!(first.len(), 1);
    assert_eq!(first[0].condition_type, "Ready");
    assert_eq!(first[0].status, "True");
    assert_eq!(first[0].reason, "KubeletReady");
    assert_eq!(first[0].message, "Rusty times.");
    assert_rfc3339(&first[0].last_heartbeat_time);
    assert_rfc3339(&first[0].last_transition_time);
    assert_eq!(first[0].last_heartbeat_time, first[0].last_transition_time);
    let second = p.node_conditions().unwrap();
    assert_rfc3339(&second[0].last_heartbeat_time);
    // zero-padded RFC 3339 strings order chronologically as text
    assert!(first[0].last_heartbeat_time <= second[0].last_heartbeat_time);
    assert!(first[0].last_transition_time <= second[0].last_transition_time);
}

#[test]
fn end_to_end_scenario() {
    let mut p = UnitProvider::new();
    p.create_pod(&unit("web", "default", "S")).unwrap();
    let got = p.get_pod("default", "web").unwrap();
    assert_eq!(got.payload, "S");
    assert_eq!(got.status.as_ref().unwrap().phase, Some(Phase::Running));
    p.delete_pod(&unit("web", "", "")).unwrap();
    assert_eq!(p.get_pod("default", "web").unwrap_err(), ProviderError::NotFound);
    assert_eq!(p.get_pod_status("default", "web").unwrap_err(), ProviderError::NotFound);
}

#[test]
fn daemon_endpoints_always_unimplemented() {
    let mut p = UnitProvider::new();
    assert_eq!(p.node_daemon_endpoints().unwrap_err(), ProviderError::Unimplemented);
    p.create_pod(&unit("web", "default", "S")).unwrap();
    assert_eq!(p.node_daemon_endpoints().unwrap_err(), ProviderError::Unimplemented);
}

#[test]
fn node_addresses_empty() {
    let p = UnitProvider::new();
    assert!(p.node_addresses().unwrap().is_empty());
}

#[test]
fn operating_system_is_linux() {
    let p = UnitProvider::new();
    assert_eq!(p.operating_system(), "linux");
}

#[test]
fn container_logs_placeholder_embeds_inputs() {
    let p = UnitProvider::new();
    let logs = p.get_container_logs("default", "web", "main", 10).unwrap();
    assert_eq!(logs, "get_container_logs() - ns: default, pod_name: web, container_name: main, tail: 10");
    let negative = p.get_container_logs("ns", "p", "c", -3).unwrap();
    assert_eq!(negative, "get_container_logs() - ns: ns, pod_name: p, container_name: c, tail: -3");
}

#[test]
fn container_logs_renders_extreme_tails() {
    let p = UnitProvider::new();
    let zero = p.get_container_logs("", "", "", 0).unwrap();
    assert_eq!(zero, "get_container_logs() - ns: , pod_name: , container_name: , tail: 0");
    let max = p.get_container_logs("n", "p", "c", i32::MAX).unwrap();
    assert_eq!(max, "get_container_logs() - ns: n, pod_name: p, container_name: c, tail: 2147483647");
    let min = p.get_container_logs("n", "p", "c", i32::MIN).unwrap();
    assert_eq!(min, "get_container_logs() - ns: n, pod_name: p, container_name: c, tail: -2147483648");
}

#[test]
fn list_returns_every_unit() {
    let mut p = UnitProvider::new();
    p.create_pod(&unit("a", "ns1", "pa")).unwrap();
    p.create_pod(&unit("b", "ns2", "pb")).unwrap();
    let pods = p.get_pods().unwrap();
    assert_eq!(pods.len(), 2);
    let mut names: Vec<String> = pods.iter().map(|u| u.name.clone().unwrap()).collect();
    names.sort();
    assert_eq!(names, vec!["a".to_owned(), "b".to_owned()]);
}

#[test]
fn pod_name_is_name_or_empty() {
    let p = UnitProvider::new();
    assert_eq!(p.pod_name(&unit("web", "default", "S")), "web");
    assert_eq!(p.pod_name(&unit("", "default", "S")), "");
}

#[test]
fn xfilter_keeps_accepted_and_drops_rejected() {
    let some: Option<i32> = Some(7);
    assert_eq!(some.xfilter(|x: &i32| *x > 3), Some(7));
    let some_again: Option<i32> = Some(2);
    assert_eq!(some_again.xfilter(|x: &i32| *x > 3), None);
    let nothing: Option<i32> = None;
    assert_eq!(nothing.xfilter(|x: &i32| *x > 3), None);
}
