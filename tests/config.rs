use tierdrop::config::{default_next_user_id, default_zt_base_url, Config, TextMap};
use tierdrop::dashboard::{dashboard_stats, enrich_members, find_network, member_counts, DashboardStats};
use tierdrop::health::health_check;
use tierdrop::edits::{member_update, parse_ip_list, UpdateMemberForm};
use tierdrop::models::{ControllerMember, ControllerNetwork, DnsConfig, V6AssignMode};
use tierdrop::permissions::{NetworkGrant, NetworkPermissions, User};
use tierdrop::snapshot::{poll_once, NetworkFetch, ZtState};

fn member(id: &str, authorized: bool) -> ControllerMember {
    ControllerMember {
        id: Some(id.to_string()),
        address: Some(id.to_string()),
        nwid: Some("8056c2e21c000001".to_string()),
        authorized: Some(authorized),
        active_bridge: None,
        identity: None,
        ip_assignments: Vec::new(),
        revision: None,
        v_major: None,
        v_minor: None,
        v_rev: None,
        v_proto: None,
        no_auto_assign_ips: false,
        creation_time: None,
        last_authorized_time: None,
        last_deauthorized_time: None,
    }
}

fn network(id: &str) -> ControllerNetwork {
    ControllerNetwork {
        id: Some(id.to_string()),
        nwid: Some(id.to_string()),
        name: None,
        private: None,
        enable_broadcast: None,
        v4_assign_mode: None,
        v6_assign_mode: None,
        mtu: None,
        multicast_limit: None,
        creation_time: None,
        revision: None,
        routes: Vec::new(),
        ip_assignment_pools: Vec::new(),
        rules: Vec::new(),
        capabilities: Vec::new(),
        tags: Vec::new(),
        dns: DnsConfig::empty(),
    }
}

fn config() -> Config {
    Config {
        username: None,
        password_hash: None,
        users: Vec::new(),
        next_user_id: default_next_user_id(),
        zt_token: "SECRET-REDACTED".to_string(),
        zt_base_url: default_zt_base_url(),
        member_names: TextMap::new(),
        rules_source: TextMap::new(),
    }
}

#[test]
fn defaults() {
    assert_eq!(default_next_user_id(), 1);
    assert_eq!(default_zt_base_url(), "http://localhost:9993");
}

#[test]
fn text_map_insert_get_remove() {
    let mut m = TextMap::new();
    m.insert("b".to_string(), "two".to_string());
    m.insert("a".to_string(), "one".to_string());
    m.insert("b".to_string(), "deux".to_string());
    assert_eq!(m.len(), 2);
    assert_eq!(m.get("b"), Some(&"deux".to_string()));
    assert_eq!(m.get("c"), None);
    m.remove("a");
    assert_eq!(m.get("a"), None);
    assert_eq!(m.len(), 1);
    m.remove("zzz");
    assert_eq!(m.len(), 1);
}

#[test]
fn users_added_found_and_removed() {
    let mut c = config();
    let id = c.add_user("alice".to_string(), "h1".to_string(), true, 10).id;
    assert_eq!(id, 1);
    c.add_user("bob".to_string(), "h2".to_string(), false, 11);
    assert_eq!(c.next_user_id, 3);
    assert_eq!(c.find_user_by_username("bob").map(|u| u.id), Some(2));
    assert!(c.find_user_by_username("carol").is_none());
    assert_eq!(c.find_user_by_id(1).map(|u| u.username.clone()), Some("alice".to_string()));
    assert!(c.has_admin());
    assert!(c.remove_user(1));
    assert!(!c.remove_user(1));
    assert!(!c.has_admin());
    assert_eq!(c.users.len(), 1);
    assert_eq!(c.max_user_id(), Some(2));
}

#[test]
fn legacy_account_is_migrated() {
    let mut c = config();
    c.username = Some("admin".to_string());
    c.password_hash = Some("h".to_string());
    assert!(c.migrate(99));
    assert_eq!(c.users.len(), 1);
    assert!(c.users[0].is_admin);
    assert_eq!(c.users[0].id, 1);
    assert_eq!(c.users[0].username, "admin");
    assert_eq!(c.users[0].created_at, 99);
    assert!(c.username.is_none() && c.password_hash.is_none());
    assert_eq!(c.next_user_id, 2);
    assert!(!c.migrate(100));
}

#[test]
fn next_user_id_moves_past_existing_ids() {
    let mut c = config();
    c.users.push(User::new(7, "x".to_string(), "h".to_string(), false, 0));
    assert!(c.migrate(0));
    assert_eq!(c.next_user_id, 8);
}

#[test]
fn member_names_and_rule_sources() {
    let mut c = config();
    c.set_member_name("0123456789", "laptop");
    assert_eq!(c.member_names.get("0123456789"), Some(&"laptop".to_string()));
    c.set_member_name("0123456789", "");
    assert_eq!(c.member_names.get("0123456789"), None);
    c.set_rules_source("8056c2e21c000001", "accept;");
    assert_eq!(c.rules_source.len(), 1);
    c.set_rules_source("8056c2e21c000001", "");
    assert_eq!(c.rules_source.len(), 0);
}

#[test]
fn dashboard_counts_visible_networks_only() {
    let fetches = vec![
        Some(NetworkFetch::new(
            "net1".to_string(),
            Ok(network("net1")),
            Some(vec![Ok(member("aaaaaaaaaa", true)), Ok(member("bbbbbbbbbb", false))]),
        )),
        Some(NetworkFetch::new(
            "net2".to_string(),
            Ok(network("net2")),
            Some(vec![Ok(member("cccccccccc", true))]),
        )),
    ];
    let zt = poll_once(Err("down".to_string()), fetches, 0);
    let admin = User::new_admin(1, "root".to_string(), "h".to_string(), 0);
    assert_eq!(
        dashboard_stats(&zt, &admin),
        DashboardStats { network_count: 2, total_members: 3, authorized_members: 2 }
    );
    let mut user = User::new(2, "bob".to_string(), "h".to_string(), false, 0);
    user.network_permissions.push(NetworkGrant {
        nwid: "net2".to_string(),
        permissions: NetworkPermissions { read: true, authorize: false, modify: false, delete: false },
    });
    assert_eq!(
        dashboard_stats(&zt, &user),
        DashboardStats { network_count: 1, total_members: 1, authorized_members: 1 }
    );
}

#[test]
fn member_rows_carry_names_and_addresses() {
    let mut names = TextMap::new();
    names.insert("0123456789".to_string(), "laptop".to_string());
    let mut net = network("8056c2e21c000001");
    net.v6_assign_mode = Some(V6AssignMode { sixplane: false, rfc4193: true, zt: false });
    let rows = enrich_members(vec![member("0123456789", true), member("abcdefabcd", false)], &names, &net);
    assert_eq!(rows.len(), 2);
    assert_eq!(rows[0].name, "laptop");
    assert_eq!(rows[0].rfc4193_addr, Some("fd80:56c2:e21c:0000:0199:9301:2345:6789".to_string()));
    assert_eq!(rows[0].sixplane_addr, None);
    assert_eq!(rows[1].name, "");
    assert_eq!(rows[1].member.display_id(), "abcdefabcd");
}

#[test]
fn member_form_is_parsed() {
    let form = UpdateMemberForm {
        name: Some("  laptop ".to_string()),
        authorized: Some("on".to_string()),
        active_bridge: None,
        no_auto_assign_ips: Some("on".to_string()),
        ip_assignments: Some("10.0.0.1, 10.0.0.2\n\n fd00::1 ,".to_string()),
    };
    let u = member_update(&form);
    assert_eq!(u.name, "laptop");
    assert!(u.authorized && !u.active_bridge && u.no_auto_assign_ips);
    assert_eq!(u.ip_assignments, vec!["10.0.0.1", "10.0.0.2", "fd00::1"]);
    let empty = member_update(&UpdateMemberForm {
        name: None,
        authorized: None,
        active_bridge: None,
        no_auto_assign_ips: None,
        ip_assignments: None,
    });
    assert_eq!(empty.name, "");
    assert!(empty.ip_assignments.is_empty());
    assert!(parse_ip_list(",,\n").is_empty());
}

#[test]
fn health_follows_snapshot() {
    let zt = ZtState::new();
    let h = health_check(&zt, "0.1.0");
    assert!(!h.zt_connected);
    assert_eq!(h.status, "degraded");
    assert_eq!(h.version, "0.1.0");
}

#[test]
fn network_lookup_and_counts() {
    let fetches = vec![
        Some(NetworkFetch::new("net1".to_string(), Ok(network("net1")), None)),
        Some(NetworkFetch::new("net2".to_string(), Ok(network("net2")), None)),
    ];
    let zt = poll_once(Err("down".to_string()), fetches, 0);
    assert_eq!(find_network(&zt, "net2").map(|n| n.display_id()), Some("net2"));
    assert!(find_network(&zt, "net3").is_none());
    let members = vec![member("aaaaaaaaaa", true), member("bbbbbbbbbb", false), member("cccccccccc", true)];
    assert_eq!(member_counts(&members), (3, 2));
}
