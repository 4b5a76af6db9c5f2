use tierdrop::models::{
    format_epoch_ms, ControllerMember, ControllerNetwork, ControllerRoute, DnsConfig,
    IpAssignmentPool, NodeStatus, V4AssignMode, V6AssignMode,
};

fn s(x: &str) -> Option<String> {
    Some(x.to_string())
}

fn network() -> ControllerNetwork {
    ControllerNetwork {
        id: None,
        nwid: None,
        name: None,
        private: None,
        enable_broadcast: None,
        v4_assign_mode: None,
        v6_assign_mode: None,
        mtu: None,
        multicast_limit: None,
        creation_time: None,
        revision: None,
        routes: Vec::new(),
        ip_assignment_pools: Vec::new(),
        rules: Vec::new(),
        capabilities: Vec::new(),
        tags: Vec::new(),
        dns: DnsConfig::empty(),
    }
}

fn member() -> ControllerMember {
    ControllerMember {
        id: None,
        address: None,
        nwid: None,
        authorized: None,
        active_bridge: None,
        identity: None,
        ip_assignments: Vec::new(),
        revision: None,
        v_major: None,
        v_minor: None,
        v_rev: None,
        v_proto: None,
        no_auto_assign_ips: false,
        creation_time: None,
        last_authorized_time: None,
        last_deauthorized_time: None,
    }
}

#[test]
fn node_status_display_defaults() {
    let st = NodeStatus {
        address: None,
        public_identity: None,
        online: None,
        tcp_fallback_active: None,
        version: s("1.14.0"),
        clock: None,
        config: "{}".to_string(),
    };
    assert_eq!(st.display_address(), "-");
    assert_eq!(st.display_version(), "1.14.0");
    assert!(!st.is_online());
}

#[test]
fn route_display_and_family() {
    let r = ControllerRoute { target: s("10.0.0.0/24"), via: None };
    assert_eq!(r.display_target(), "10.0.0.0/24");
    assert_eq!(r.display_via(), "(LAN)");
    assert!(r.is_ipv4());
    let r6 = ControllerRoute { target: s("fd00::/64"), via: s("fd00::1") };
    assert!(r6.is_ipv6());
    assert_eq!(r6.display_via(), "fd00::1");
    let none = ControllerRoute { target: None, via: None };
    assert_eq!(none.display_target(), "-");
    assert!(none.is_ipv4());
}

#[test]
fn pool_display_and_family() {
    let p = IpAssignmentPool { ip_range_start: s("10.0.0.1"), ip_range_end: s("10.0.0.254") };
    assert_eq!(p.display_start(), "10.0.0.1");
    assert_eq!(p.display_end(), "10.0.0.254");
    assert_eq!(p._display_range(), "10.0.0.1 - 10.0.0.254");
    assert!(p.is_ipv4());
    let half = IpAssignmentPool { ip_range_start: s("fd00::1"), ip_range_end: None };
    assert_eq!(half._display_range(), "-");
    assert_eq!(half.display_end(), "-");
    assert!(half.is_ipv6());
}

#[test]
fn network_display_defaults() {
    let n = network();
    assert_eq!(n.display_id(), "unknown");
    assert_eq!(n.display_name(), "Unnamed Network");
    assert!(n.is_private());
    assert_eq!(n.display_type(), "Private");
    assert_eq!(n.type_class(), "type-private");
    assert_eq!(n._display_mtu(), "2800");
    assert_eq!(n.display_multicast_limit(), 32);
    assert!(!n.v4_auto_assign());
    assert!(!n.v6_rfc4193());
    assert!(!n.broadcast_enabled());
    assert_eq!(n.display_subnet(), "-");
    assert_eq!(n.display_creation_time(1_000), "-");
}

#[test]
fn network_display_values() {
    let mut n = network();
    n.id = s("abc");
    n.nwid = s("8056c2e21c000001");
    n.name = s("");
    n.private = Some(false);
    n.mtu = Some(1400);
    n.multicast_limit = Some(8);
    n.v4_assign_mode = Some(V4AssignMode { zt: true });
    n.v6_assign_mode = Some(V6AssignMode { sixplane: true, rfc4193: false, zt: true });
    n.enable_broadcast = Some(true);
    n.routes.push(ControllerRoute { target: s("10.1.0.0/16"), via: None });
    assert_eq!(n.display_id(), "8056c2e21c000001");
    assert_eq!(n.display_name(), "Unnamed Network");
    assert_eq!(n.display_type(), "Public");
    assert_eq!(n.type_class(), "type-public");
    assert_eq!(n._display_mtu(), "1400");
    assert_eq!(n.display_multicast_limit(), 8);
    assert!(n.v4_auto_assign());
    assert!(n.v6_sixplane());
    assert!(!n.v6_rfc4193());
    assert!(n.v6_zt_auto_assign());
    assert!(n.broadcast_enabled());
    assert_eq!(n.display_subnet(), "10.1.0.0/16");
    n.name = s("office");
    assert_eq!(n.display_name(), "office");
}

#[test]
fn ages_in_each_unit() {
    let now: u64 = 1_700_000_000;
    let ms = |secs_ago: u64| Some(((now - secs_ago) * 1000) as i64);
    assert_eq!(format_epoch_ms(ms(30), now), "just now");
    assert_eq!(format_epoch_ms(ms(125), now), "2m ago");
    assert_eq!(format_epoch_ms(ms(7200), now), "2h ago");
    assert_eq!(format_epoch_ms(ms(3 * 86400 + 5), now), "3d ago");
    assert_eq!(format_epoch_ms(Some(0), now), "-");
    assert_eq!(format_epoch_ms(Some(-5), now), "-");
    assert_eq!(format_epoch_ms(None, now), "-");
    assert_eq!(format_epoch_ms(Some(((now + 100) * 1000) as i64), now), "just now");
}

#[test]
fn member_display() {
    let mut m = member();
    assert_eq!(m.display_id(), "unknown");
    m.id = s("0123456789");
    assert_eq!(m.display_id(), "0123456789");
    m.address = s("abcdefabcd");
    assert_eq!(m.display_id(), "abcdefabcd");
    assert!(!m.is_authorized());
    assert_eq!(m.auth_class(), "status-denied");
    assert_eq!(m.auth_label(), "Not Authorized");
    m.authorized = Some(true);
    assert_eq!(m.auth_class(), "status-ok");
    assert_eq!(m.auth_label(), "Authorized");
    assert!(!m.is_bridge());
    assert_eq!(m.display_version(), "-");
    m.v_major = Some(1);
    m.v_minor = Some(14);
    m.v_rev = Some(2);
    assert_eq!(m.display_version(), "1.14.2");
    m.v_rev = Some(-1);
    assert_eq!(m.display_version(), "-");
}

#[test]
fn member_ip_assignments_ipv4_first() {
    let mut m = member();
    m.ip_assignments = vec![
        "fd00::5".to_string(),
        "10.0.0.5".to_string(),
        "fd00::6".to_string(),
        "10.0.0.6".to_string(),
    ];
    assert_eq!(m.display_ip_assignments(), "10.0.0.5, 10.0.0.6, fd00::5, fd00::6");
    m.ip_assignments = Vec::new();
    assert_eq!(m.display_ip_assignments(), "");
}

#[test]
fn member_ages() {
    let mut m = member();
    m.creation_time = Some(1_000_000);
    m.last_authorized_time = Some(1_000_000 + 3_600_000);
    assert_eq!(m.display_creation_time(1_000 + 90_000), "1d ago");
    assert_eq!(m.display_last_authorized(1_000 + 3_600 + 600), "10m ago");
    assert_eq!(m.display_last_deauthorized(5), "-");
}

#[test]
fn structural_equality_of_entities() {
    let mut a = member();
    a.id = s("0123456789");
    a.ip_assignments = vec!["10.0.0.1".to_string()];
    let mut b = member();
    b.id = s("0123456789");
    b.ip_assignments = vec!["10.0.0.1".to_string()];
    assert!(a == b);
    b.ip_assignments = vec!["10.0.0.2".to_string()];
    assert!(a != b);
    let mut n = network();
    let n2 = network();
    assert!(n == n2);
    n.tags.push("{\"id\":1}".to_string());
    assert!(n != n2);
}
