use spur::heartbeat::{controller_url, HeartbeatManager, RegisterAgentRequest};
use spur::status::Code;
use spur::strmap::StrMap;

fn make_req(hostname: &str) -> RegisterAgentRequest {
    RegisterAgentRequest {
        hostname: hostname.into(),
        resources: None,
        version: "test".into(),
        address: "127.0.0.1".into(),
        port: 6818,
        wg_pubkey: String::new(),
        labels: StrMap::new(),
        join_token: String::new(),
        worker_incarnation: format!("{hostname}-incarnation"),
    }
}

fn is_tracked(hb: &HeartbeatManager, name: &str) -> bool {
    hb.registry.contains_key(&name.to_string())
}

#[test]
fn test_new_registry_is_empty() {
    let hb = HeartbeatManager::new("http://localhost:6817".into());
    assert_eq!(hb.registry.len(), 0);
}

#[test]
fn test_track_adds_node() {
    let mut hb = HeartbeatManager::new("http://localhost:6817".into());
    hb.track("node-1".into(), make_req("node-1"));
    assert!(is_tracked(&hb, "node-1"));
}

#[test]
fn stale_incarnation_cannot_untrack_replacement() {
    let mut hb = HeartbeatManager::new("http://localhost:6817".into());
    let mut replacement = make_req("node-1");
    replacement.worker_incarnation = "replacement".into();
    hb.track("node-1".into(), replacement);

    assert!(!hb.untrack_exact("node-1", "old"));
    assert!(is_tracked(&hb, "node-1"));
    assert!(hb.untrack_exact("node-1", "replacement"));
    assert_eq!(hb.registry.len(), 0);
}

#[test]
fn test_track_idempotent_updates_entry() {
    let mut hb = HeartbeatManager::new("http://localhost:6817".into());
    hb.track("node-1".into(), make_req("node-1"));

    let mut updated = make_req("node-1");
    updated.address = "10.0.0.1".into();
    hb.track("node-1".into(), updated);

    assert_eq!(hb.registry.len(), 1);
    assert_eq!(hb.registry.get(&"node-1".to_string()).unwrap().address, "10.0.0.1");
}

#[test]
fn exact_incarnation_gate_rejects_stale_worker() {
    let mut hb = HeartbeatManager::new("http://localhost:6817".into());
    let mut current = make_req("node-1");
    current.worker_incarnation = "current-incarnation".into();
    hb.track("node-1".into(), current);

    assert!(hb.require_incarnation("node-1", "current-incarnation").is_ok());
    assert_eq!(
        hb.require_incarnation("node-1", "stale-incarnation")
            .expect_err("stale launch must be rejected")
            .code,
        Code::FailedPrecondition
    );
}

#[test]
fn test_multiple_nodes_tracked_independently() {
    let mut hb = HeartbeatManager::new("http://localhost:6817".into());
    hb.track("node-1".into(), make_req("node-1"));
    hb.track("node-2".into(), make_req("node-2"));
    hb.track("node-3".into(), make_req("node-3"));
    assert_eq!(hb.registry.len(), 3);
}

#[test]
fn test_untrack_one_of_many_leaves_others() {
    let mut hb = HeartbeatManager::new("http://localhost:6817".into());
    hb.track("node-1".into(), make_req("node-1"));
    hb.track("node-2".into(), make_req("node-2"));
    assert!(hb.untrack_exact("node-1", "node-1-incarnation"));

    assert_eq!(hb.registry.len(), 1);
    assert!(!is_tracked(&hb, "node-1"));
    assert!(is_tracked(&hb, "node-2"));
}

#[test]
fn test_track_after_untrack_re_adds_node() {
    let mut hb = HeartbeatManager::new("http://localhost:6817".into());
    hb.track("node-1".into(), make_req("node-1"));
    assert!(hb.untrack_exact("node-1", "node-1-incarnation"));
    hb.track("node-1".into(), make_req("node-1"));

    assert_eq!(hb.registry.len(), 1);
}

#[test]
fn test_untrack_all_leaves_empty_registry() {
    let mut hb = HeartbeatManager::new("http://localhost:6817".into());
    hb.track("node-1".into(), make_req("node-1"));
    hb.track("node-2".into(), make_req("node-2"));
    assert!(hb.untrack_exact("node-1", "node-1-incarnation"));
    assert!(hb.untrack_exact("node-2", "node-2-incarnation"));
    assert_eq!(hb.registry.len(), 0);
}

#[test]
fn test_register_req_preserved_for_reregistration() {
    let mut hb = HeartbeatManager::new("http://localhost:6817".into());
    let req = make_req("node-1");
    hb.track("node-1".into(), req.clone());
    hb.track("node-2".into(), make_req("node-2"));
    assert!(hb.untrack_exact("node-2", "node-2-incarnation"));

    let stored = hb
        .registry
        .get(&"node-1".to_string())
        .expect("node-1 must still be tracked");
    assert_eq!(stored.hostname, req.hostname);
    assert_eq!(stored.address, req.address);
    assert_eq!(stored.port, req.port);
}

#[test]
fn unknown_workers_are_refused() {
    let mut hb = HeartbeatManager::new("http://localhost:6817".into());
    assert_eq!(
        hb.require_incarnation("node-1", "any").unwrap_err().code,
        Code::FailedPrecondition
    );
    assert_eq!(
        hb.require_incarnation("node-1", "").unwrap_err().code,
        Code::InvalidArgument
    );
    assert_eq!(
        hb.require_known_incarnation("").unwrap_err().code,
        Code::InvalidArgument
    );
    assert_eq!(
        hb.require_known_incarnation("any").unwrap_err().code,
        Code::FailedPrecondition
    );
    hb.track("node-1".into(), make_req("node-1"));
    assert_eq!(
        hb.require_known_incarnation("node-1-incarnation").unwrap(),
        "node-1"
    );
    assert!(hb.require_known_incarnation("node-2-incarnation").is_err());
}

#[test]
fn every_tracked_node_beats_once() {
    let mut hb = HeartbeatManager::new("http://localhost:6817".into());
    hb.track("node-2".into(), make_req("node-2"));
    hb.track("node-1".into(), make_req("node-1"));
    let beats = hb.heartbeats();
    assert_eq!(beats.len(), 2);
    for name in ["node-1", "node-2"] {
        let own: Vec<_> = beats.iter().filter(|beat| beat.hostname == name).collect();
        assert_eq!(own.len(), 1);
        assert_eq!(own[0].worker_incarnation, format!("{name}-incarnation"));
    }
}

#[test]
fn controller_addresses_get_a_scheme() {
    assert_eq!(controller_url("controller:6817"), "http://controller:6817");
    assert_eq!(controller_url("http://c:1"), "http://c:1");
    assert_eq!(controller_url("https://c:1"), "https://c:1");
}
