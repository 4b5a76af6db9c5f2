use tierdrop::backup::{determine_backup_type, BackupStatus};
use tierdrop::edits::{
    assign_modes_update, broadcast_update, dns_after_add, dns_after_remove, node_id_of,
    pools_after_add, pools_after_remove, routes_after_add, routes_after_remove, settings_update,
    valid_node_id, AddDnsForm, AddMemberForm, AddPoolForm, AddRouteForm, RemoveDnsForm,
    RemovePoolForm, RemoveRouteForm, UpdateAssignModesForm, UpdateBroadcastForm,
    UpdateSettingsForm,
};
use tierdrop::models::{ControllerRoute, DnsConfig, IpAssignmentPool, NodeStatus};
use tierdrop::permissions::{
    can_authorize, can_delete, can_modify, can_read, has_any_permission, is_admin, NetworkGrant,
    NetworkPermissions, User,
};
use tierdrop::snapshot::ZtState;

fn s(x: &str) -> Option<String> {
    Some(x.to_string())
}

fn reader() -> User {
    let mut u = User::new(2, "bob".to_string(), "hash".to_string(), false, 0);
    u.network_permissions.push(NetworkGrant {
        nwid: "net1".to_string(),
        permissions: NetworkPermissions { read: true, authorize: false, modify: false, delete: false },
    });
    u.network_permissions.push(NetworkGrant {
        nwid: "net2".to_string(),
        permissions: NetworkPermissions::default(),
    });
    u
}

#[test]
fn permissions_full_and_any() {
    let f = NetworkPermissions::full();
    assert!(f.read && f.authorize && f.modify && f.delete);
    assert!(f.has_any());
    assert!(!NetworkPermissions::default().has_any());
    assert!(NetworkPermissions { read: false, authorize: false, modify: false, delete: true }.has_any());
}

#[test]
fn admin_may_do_everything() {
    let a = User::new_admin(1, "root".to_string(), "hash".to_string(), 0);
    assert!(is_admin(&a));
    assert!(can_read(&a, "x") && can_authorize(&a, "x") && can_modify(&a, "x") && can_delete(&a, "x"));
    assert!(has_any_permission(&a, "x"));
    assert_eq!(a.get_network_permissions("x"), NetworkPermissions::full());
    assert!(a.can_access_any_network());
    assert_eq!(a.accessible_network_count(), usize::MAX);
}

#[test]
fn user_grants_per_network() {
    let u = reader();
    assert!(!is_admin(&u));
    assert!(can_read(&u, "net1"));
    assert!(!can_modify(&u, "net1"));
    assert!(!can_authorize(&u, "net1"));
    assert!(!can_delete(&u, "net1"));
    assert!(!can_read(&u, "net3"));
    assert!(!has_any_permission(&u, "net2"));
    assert!(has_any_permission(&u, "net1"));
    assert_eq!(u.accessible_network_count(), 1);
    assert!(u.can_access_any_network());
    let lone = User::new(3, "eve".to_string(), "h".to_string(), false, 0);
    assert!(!lone.can_access_any_network());
    assert_eq!(lone.accessible_network_count(), 0);
}

#[test]
fn backup_kinds() {
    assert_eq!(determine_backup_type(true, true), "full");
    assert_eq!(determine_backup_type(true, false), "partial");
    assert_eq!(determine_backup_type(false, true), "partial");
    let mut zt = ZtState::new();
    let st = BackupStatus::fetch(&zt, false);
    assert_eq!(st.node_address, None);
    assert_eq!(st.network_count, 0);
    assert_eq!(st.backup_type(), "partial");
    zt.status = Some(NodeStatus {
        address: s("aaaaaaaaaa"),
        public_identity: None,
        online: None,
        tcp_fallback_active: None,
        version: None,
        clock: None,
        config: String::new(),
    });
    let st = BackupStatus::fetch(&zt, true);
    assert_eq!(st.node_address, s("aaaaaaaaaa"));
    assert_eq!(st.backup_type(), "full");
}

#[test]
fn settings_forms() {
    let (name, private) = settings_update(UpdateSettingsForm { name: None, private: s("on") });
    assert_eq!(name, "");
    assert!(private);
    let (name, private) = settings_update(UpdateSettingsForm { name: s("lab"), private: None });
    assert_eq!(name, "lab");
    assert!(!private);
    assert_eq!(broadcast_update(&UpdateBroadcastForm { enable_broadcast: None, multicast_limit: None }), (false, 32));
    assert_eq!(broadcast_update(&UpdateBroadcastForm { enable_broadcast: s("on"), multicast_limit: Some(4) }), (true, 4));
    let (v4, v6) = assign_modes_update(&UpdateAssignModesForm {
        v4_auto_assign: s("on"),
        v6_rfc4193: None,
        v6_sixplane: s("on"),
        v6_auto_assign: None,
    });
    assert!(v4.zt);
    assert!(!v6.rfc4193 && v6.sixplane && !v6.zt);
}

#[test]
fn pool_forms() {
    let current = vec![IpAssignmentPool { ip_range_start: s("10.0.0.1"), ip_range_end: s("10.0.0.9") }];
    let added = pools_after_add(&current, &AddPoolForm { range_start: " 10.0.1.1 ".to_string(), range_end: "10.0.1.9\n".to_string() });
    assert_eq!(added.len(), 2);
    assert_eq!(added[0], current[0]);
    assert_eq!(added[1].ip_range_start, s("10.0.1.1"));
    assert_eq!(added[1].ip_range_end, s("10.0.1.9"));
    let removed = pools_after_remove(&added, &RemovePoolForm { index: 0 });
    assert_eq!(removed.len(), 1);
    assert_eq!(removed[0].ip_range_start, s("10.0.1.1"));
    let same = pools_after_remove(&added, &RemovePoolForm { index: 7 });
    assert_eq!(same, added);
}

#[test]
fn route_forms() {
    let current: Vec<ControllerRoute> = Vec::new();
    let added = routes_after_add(&current, &AddRouteForm { target: " 10.0.0.0/24".to_string(), via: s("   ") });
    assert_eq!(added, vec![ControllerRoute { target: s("10.0.0.0/24"), via: None }]);
    let added = routes_after_add(&added, &AddRouteForm { target: "10.2.0.0/16".to_string(), via: s(" 10.0.0.1 ") });
    assert_eq!(added[1].via, s("10.0.0.1"));
    let removed = routes_after_remove(&added, &RemoveRouteForm { index: 1 });
    assert_eq!(removed, vec![ControllerRoute { target: s("10.0.0.0/24"), via: None }]);
}

#[test]
fn dns_forms() {
    let current = DnsConfig { domain: "old.lan".to_string(), servers: vec!["10.0.0.2".to_string()] };
    let a = dns_after_add(&current, &AddDnsForm { domain: s(" "), server: " 10.0.0.3 ".to_string() });
    assert_eq!(a.domain, "old.lan");
    assert_eq!(a.servers, vec!["10.0.0.2".to_string(), "10.0.0.3".to_string()]);
    let b = dns_after_add(&a, &AddDnsForm { domain: s("new.lan"), server: "10.0.0.2".to_string() });
    assert_eq!(b.domain, "new.lan");
    assert_eq!(b.servers.len(), 2);
    let c = dns_after_add(&a, &AddDnsForm { domain: None, server: "  ".to_string() });
    assert_eq!(c.servers.len(), 2);
    let d = dns_after_remove(&current, &RemoveDnsForm { index: 0 });
    assert!(d.servers.is_empty());
    assert_eq!(d.domain, "");
    let e = dns_after_remove(&a, &RemoveDnsForm { index: 0 });
    assert_eq!(e.servers, vec!["10.0.0.3".to_string()]);
    assert_eq!(e.domain, "old.lan");
}

#[test]
fn node_id_validation() {
    assert_eq!(node_id_of(&AddMemberForm { node_id: " 0123456ABC ".to_string() }), s("0123456abc"));
    assert_eq!(node_id_of(&AddMemberForm { node_id: "012345678".to_string() }), None);
    assert_eq!(node_id_of(&AddMemberForm { node_id: "012345678g".to_string() }), None);
    assert!(valid_node_id("abcdef0123"));
    assert!(!valid_node_id("abcdef01234"));
}
