use orb_discovery::record::ServiceResolution;
use orb_discovery::session::{Action, Event, Phase, Session, BUDGET_MS, SERVICE_TYPE, SLICE_MS};

fn resolved(address: &str, port: u16, path: &str, version: &str) -> ServiceResolution {
    ServiceResolution {
        fullname: "orb-living-room._orb._tcp.local.".to_string(),
        hostname: "orb-box.local.".to_string(),
        port,
        addresses: vec![address.to_string()],
        path: Some(path.to_string()),
        version: Some(version.to_string()),
    }
}

fn polling_session() -> Session {
    let mut s = Session::new();
    assert!(matches!(s.step(Event::DaemonStarted), Action::Browse));
    assert!(matches!(s.step(Event::BrowseStarted), Action::Wait(500)));
    assert_eq!(s.phase(), Phase::Polling);
    s
}

#[test]
fn constants() {
    assert_eq!(SERVICE_TYPE, "_orb._tcp.local.");
    assert_eq!(BUDGET_MS, 3000);
    assert_eq!(SLICE_MS, 500);
}

#[test]
fn same_url_keeps_first_record() {
    let mut s = polling_session();
    let a = s.step(Event::Polled(Some(resolved("192.168.1.50", 9000, "/api", "1.2.0")), 100));
    assert!(matches!(a, Action::Wait(500)));
    let a = s.step(Event::Polled(Some(resolved("192.168.1.50", 9000, "/api", "2.0.0")), 200));
    assert!(matches!(a, Action::Wait(500)));
    assert_eq!(s.servers().len(), 1);
    assert_eq!(s.servers()[0].version, "1.2.0");
}

#[test]
fn one_record_per_url_in_first_seen_order() {
    let mut s = polling_session();
    s.step(Event::Polled(Some(resolved("10.0.0.1", 1, "/", "a")), 10));
    s.step(Event::Polled(Some(resolved("10.0.0.2", 1, "/", "b")), 20));
    s.step(Event::Polled(Some(resolved("10.0.0.1", 1, "/", "c")), 30));
    s.step(Event::Polled(Some(resolved("10.0.0.1", 2, "/", "d")), 40));
    s.step(Event::Polled(None, 50));
    let urls: Vec<&str> = s.servers().iter().map(|r| r.url.as_str()).collect();
    assert_eq!(urls, vec!["http://10.0.0.1:1/", "http://10.0.0.2:1/", "http://10.0.0.1:2/"]);
    let versions: Vec<&str> = s.servers().iter().map(|r| r.version.as_str()).collect();
    assert_eq!(versions, vec!["a", "b", "d"]);
}

#[test]
fn silent_subscription_gives_empty_list() {
    let mut s = polling_session();
    assert!(matches!(s.step(Event::Polled(None, 500)), Action::Wait(500)));
    assert!(matches!(s.step(Event::Polled(None, 2600)), Action::Wait(400)));
    assert!(matches!(s.step(Event::Polled(None, 2999)), Action::Wait(1)));
    assert!(matches!(s.step(Event::Polled(None, 3001)), Action::Teardown));
    assert_eq!(s.phase(), Phase::Finished);
    assert!(s.into_servers().is_empty());
}

#[test]
fn budget_reached_exactly_tears_down() {
    let mut s = polling_session();
    assert!(matches!(s.step(Event::Polled(None, 3000)), Action::Teardown));
}

#[test]
fn resolution_at_deadline_is_kept() {
    let mut s = polling_session();
    let a = s.step(Event::Polled(Some(resolved("192.168.1.50", 9000, "/api", "1.2.0")), 3200));
    assert!(matches!(a, Action::Teardown));
    let servers = s.into_servers();
    assert_eq!(servers.len(), 1);
    assert_eq!(servers[0].url, "http://192.168.1.50:9000/api");
}

#[test]
fn daemon_failure_fails_without_teardown() {
    let mut s = Session::new();
    match s.step(Event::DaemonFailed("no usable interface".to_string())) {
        Action::Fail(m) => assert_eq!(m, "mdns init: no usable interface"),
        other => panic!("unexpected action {:?}", other),
    }
    assert_eq!(s.phase(), Phase::Failed);
    assert!(matches!(s.step(Event::BrowseStarted), Action::Ignore));
    assert!(matches!(s.step(Event::Polled(None, 10)), Action::Ignore));
    assert!(matches!(s.step(Event::DaemonStarted), Action::Ignore));
    assert_eq!(s.phase(), Phase::Failed);
    assert!(s.servers().is_empty());
}

#[test]
fn browse_failure_aborts() {
    let mut s = Session::new();
    assert!(matches!(s.step(Event::DaemonStarted), Action::Browse));
    match s.step(Event::BrowseFailed("socket closed".to_string())) {
        Action::Abort(m) => assert_eq!(m, "mdns browse: socket closed"),
        other => panic!("unexpected action {:?}", other),
    }
    assert_eq!(s.phase(), Phase::Failed);
}

#[test]
fn out_of_phase_events_are_ignored() {
    let mut s = Session::new();
    assert!(matches!(s.step(Event::BrowseStarted), Action::Ignore));
    assert!(matches!(s.step(Event::Polled(Some(resolved("1.1.1.1", 1, "/", "v")), 1)), Action::Ignore));
    assert_eq!(s.phase(), Phase::Starting);
    assert!(s.servers().is_empty());
    let mut s = polling_session();
    assert!(matches!(s.step(Event::DaemonStarted), Action::Ignore));
    assert_eq!(s.phase(), Phase::Polling);
    s.step(Event::Polled(None, 3000));
    assert!(matches!(s.step(Event::Polled(None, 10)), Action::Ignore));
    assert_eq!(s.phase(), Phase::Finished);
}
