use tierdrop::models::{ControllerMember, ControllerNetwork, DnsConfig, NodeStatus};
use tierdrop::poller::{detect_changes, events_for, Changes, PollTrigger, SnapshotCache};
use tierdrop::snapshot::{collect_members, poll_once, MemberMap, NetworkFetch, ZtState};
use tierdrop::sse::{forwarded_event_name, SseEvent};

fn member(id: &str) -> ControllerMember {
    ControllerMember {
        id: Some(id.to_string()),
        address: Some(id.to_string()),
        nwid: Some("8056c2e21c000001".to_string()),
        authorized: Some(true),
        active_bridge: None,
        identity: None,
        ip_assignments: Vec::new(),
        revision: Some(1),
        v_major: None,
        v_minor: None,
        v_rev: None,
        v_proto: None,
        no_auto_assign_ips: false,
        creation_time: None,
        last_authorized_time: None,
        last_deauthorized_time: None,
    }
}

fn network(id: &str) -> ControllerNetwork {
    ControllerNetwork {
        id: Some(id.to_string()),
        nwid: Some(id.to_string()),
        name: Some("net".to_string()),
        private: Some(true),
        enable_broadcast: None,
        v4_assign_mode: None,
        v6_assign_mode: None,
        mtu: None,
        multicast_limit: None,
        creation_time: None,
        revision: None,
        routes: Vec::new(),
        ip_assignment_pools: Vec::new(),
        rules: Vec::new(),
        capabilities: Vec::new(),
        tags: Vec::new(),
        dns: DnsConfig::empty(),
    }
}

fn status() -> NodeStatus {
    NodeStatus {
        address: Some("aaaaaaaaaa".to_string()),
        public_identity: None,
        online: Some(true),
        tcp_fallback_active: None,
        version: Some("1.14.0".to_string()),
        clock: None,
        config: "{}".to_string(),
    }
}

fn ids(v: &[ControllerMember]) -> Vec<String> {
    v.iter().map(|m| m.display_id().to_string()).collect()
}

fn remote_state(member_order: &[&str]) -> ZtState {
    let results = member_order.iter().map(|id| Ok(member(id))).collect();
    let fetches = vec![
        Some(NetworkFetch::new(
            "8056c2e21c000001".to_string(),
            Ok(network("8056c2e21c000001")),
            Some(results),
        )),
        Some(NetworkFetch::new("1111111111000002".to_string(), Ok(network("1111111111000002")), None)),
    ];
    poll_once(Ok(status()), fetches, 1_000)
}

#[test]
fn members_sorted_whatever_the_completion_order() {
    let results = vec![Ok(member("cccccccccc")), Ok(member("aaaaaaaaaa")), Ok(member("bbbbbbbbbb"))];
    let out = collect_members(results);
    assert_eq!(ids(&out), vec!["aaaaaaaaaa", "bbbbbbbbbb", "cccccccccc"]);
    let results = vec![Ok(member("bbbbbbbbbb")), Ok(member("cccccccccc")), Ok(member("aaaaaaaaaa"))];
    assert_eq!(ids(&collect_members(results)), vec!["aaaaaaaaaa", "bbbbbbbbbb", "cccccccccc"]);
}

#[test]
fn one_failed_member_fetch_is_left_out() {
    let results = vec![
        Ok(member("cccccccccc")),
        Err("timeout".to_string()),
        Ok(member("aaaaaaaaaa")),
        Ok(member("bbbbbbbbbb")),
    ];
    let out = collect_members(results);
    assert_eq!(out.len(), 3);
    assert_eq!(ids(&out), vec!["aaaaaaaaaa", "bbbbbbbbbb", "cccccccccc"]);
}

#[test]
fn failed_member_listing_gives_no_members() {
    let f = NetworkFetch::new("8056c2e21c000001".to_string(), Err("down".to_string()), None);
    assert!(f.members.is_empty());
    assert!(f.network.is_err());
}

#[test]
fn snapshot_assembly_keeps_members_of_unlisted_network() {
    let fetches = vec![
        Some(NetworkFetch::new(
            "8056c2e21c000001".to_string(),
            Err("gone".to_string()),
            Some(vec![Ok(member("aaaaaaaaaa"))]),
        )),
        None,
        Some(NetworkFetch::new("1111111111000002".to_string(), Ok(network("1111111111000002")), None)),
    ];
    let st = poll_once(Err("unreachable".to_string()), fetches, 42);
    assert!(st.status.is_none());
    assert_eq!(st.error, Some("unreachable".to_string()));
    assert_eq!(st.controller_networks.len(), 1);
    assert_eq!(st.controller_networks[0].display_id(), "1111111111000002");
    assert_eq!(st.controller_members.len(), 2);
    assert_eq!(st.controller_members.entries[0].nwid, "1111111111000002");
    assert!(st.controller_members.entries[0].members.is_empty());
    assert_eq!(st.controller_members.entries[1].nwid, "8056c2e21c000001");
    assert_eq!(st.controller_members.entries[1].members.len(), 1);
    assert_eq!(st.last_updated, Some(42));
}

#[test]
fn member_map_insert_replaces_and_orders() {
    let mut m = MemberMap::new();
    m.insert("b".to_string(), vec![member("bbbbbbbbbb")]);
    m.insert("a".to_string(), Vec::new());
    m.insert("c".to_string(), Vec::new());
    m.insert("b".to_string(), Vec::new());
    assert_eq!(m.len(), 3);
    let keys: Vec<&str> = m.entries.iter().map(|e| e.nwid.as_str()).collect();
    assert_eq!(keys, vec!["a", "b", "c"]);
    assert!(m.entries[1].members.is_empty());
}

#[test]
fn second_cycle_over_unchanged_state_is_silent() {
    let mut cache = SnapshotCache::new();
    let first = cache.apply_cycle(remote_state(&["bbbbbbbbbb", "aaaaaaaaaa"]));
    assert_eq!(
        first,
        vec![
            SseEvent::StatusChanged,
            SseEvent::ControllerNetworksChanged,
            SseEvent::ControllerMembersChanged
        ]
    );
    let second = cache.apply_cycle(remote_state(&["aaaaaaaaaa", "bbbbbbbbbb"]));
    assert!(second.is_empty());
}

#[test]
fn only_changed_axes_are_published() {
    let mut cache = SnapshotCache::new();
    cache.apply_cycle(remote_state(&["aaaaaaaaaa"]));
    let events = cache.apply_cycle(remote_state(&["aaaaaaaaaa", "bbbbbbbbbb"]));
    assert_eq!(events, vec![SseEvent::ControllerMembersChanged]);
    let mut degraded = remote_state(&["aaaaaaaaaa", "bbbbbbbbbb"]);
    degraded.status = None;
    degraded.error = Some("unreachable".to_string());
    assert_eq!(cache.apply_cycle(degraded), vec![SseEvent::StatusChanged]);
}

#[test]
fn replacement_is_total_and_reads_see_latest() {
    let mut cache = SnapshotCache::new();
    cache.apply_cycle(remote_state(&["aaaaaaaaaa"]));
    cache.apply_cycle(remote_state(&["aaaaaaaaaa", "bbbbbbbbbb"]));
    cache.apply_cycle(remote_state(&["aaaaaaaaaa", "bbbbbbbbbb", "cccccccccc"]));
    let current = cache.read();
    assert_eq!(current.controller_networks.len(), 2);
    assert_eq!(current.controller_members.entries[1].members.len(), 3);
}

#[test]
fn change_detection_and_events() {
    let a = remote_state(&["aaaaaaaaaa"]);
    let b = remote_state(&["aaaaaaaaaa"]);
    assert_eq!(detect_changes(&a, &b), Changes { status: false, networks: false, members: false });
    let empty = ZtState::new();
    assert_eq!(detect_changes(&empty, &a), Changes { status: true, networks: true, members: true });
    assert_eq!(
        events_for(Changes { status: false, networks: true, members: true }),
        vec![SseEvent::ControllerNetworksChanged, SseEvent::ControllerMembersChanged]
    );
}

#[test]
fn five_requests_give_one_extra_cycle() {
    let mut t = PollTrigger::new();
    for _ in 0..5 {
        t.notify();
    }
    assert!(t.take());
    assert!(!t.take());
}

#[test]
fn lagged_subscriber_skips_and_reads_current_snapshot() {
    assert_eq!(forwarded_event_name(None), None);
    assert_eq!(forwarded_event_name(Some(SseEvent::StatusChanged)), Some("status-changed"));
    let mut cache = SnapshotCache::new();
    cache.apply_cycle(remote_state(&["aaaaaaaaaa"]));
    cache.apply_cycle(remote_state(&["aaaaaaaaaa", "bbbbbbbbbb"]));
    assert_eq!(cache.read().controller_members.entries[1].members.len(), 2);
}

#[test]
fn event_names() {
    assert_eq!(SseEvent::StatusChanged.event_name(), "status-changed");
    assert_eq!(SseEvent::ControllerNetworksChanged.event_name(), "ctrl-networks-changed");
    assert_eq!(SseEvent::ControllerMembersChanged.event_name(), "ctrl-members-changed");
}
