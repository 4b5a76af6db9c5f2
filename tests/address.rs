use tierdrop::models::ControllerMember;

fn member(nwid: Option<&str>, address: Option<&str>, id: Option<&str>) -> ControllerMember {
    ControllerMember {
        id: id.map(|s| s.to_string()),
        address: address.map(|s| s.to_string()),
        nwid: nwid.map(|s| s.to_string()),
        authorized: None,
        active_bridge: None,
        identity: None,
        ip_assignments: Vec::new(),
        revision: None,
        v_major: None,
        v_minor: None,
        v_rev: None,
        v_proto: None,
        no_auto_assign_ips: false,
        creation_time: None,
        last_authorized_time: None,
        last_deauthorized_time: None,
    }
}

#[test]
fn rfc4193_address_of_known_ids() {
    let m = member(Some("8056c2e21c000001"), Some("0123456789"), None);
    assert_eq!(
        m.rfc4193_address(),
        Some("fd80:56c2:e21c:0000:0199:9301:2345:6789".to_string())
    );
}

#[test]
fn sixplane_address_of_known_ids() {
    let m = member(Some("8056c2e21c000001"), Some("0123456789"), None);
    assert_eq!(
        m.sixplane_address(),
        Some("fc9c:56c2:e301:2345:6789:0000:0000:0001".to_string())
    );
}

#[test]
fn derivations_repeat_the_same_output() {
    let m = member(Some("8056c2e21c000001"), Some("0123456789"), None);
    assert_eq!(m.rfc4193_address(), m.rfc4193_address());
    assert_eq!(m.sixplane_address(), m.sixplane_address());
}

#[test]
fn derivations_reject_short_member_id() {
    let m = member(Some("8056c2e21c000001"), Some("012345678"), None);
    assert_eq!(m.rfc4193_address(), None);
    assert_eq!(m.sixplane_address(), None);
}

#[test]
fn derivations_reject_wrong_network_id_length() {
    let m = member(Some("8056c2e21c00001"), Some("0123456789"), None);
    assert_eq!(m.rfc4193_address(), None);
    assert_eq!(m.sixplane_address(), None);
    let m = member(Some("8056c2e21c0000011"), Some("0123456789"), None);
    assert_eq!(m.rfc4193_address(), None);
    assert_eq!(m.sixplane_address(), None);
}

#[test]
fn derivations_need_both_ids() {
    assert_eq!(member(None, Some("0123456789"), None).rfc4193_address(), None);
    assert_eq!(member(Some("8056c2e21c000001"), None, None).sixplane_address(), None);
}

#[test]
fn derivations_fall_back_to_member_id() {
    let m = member(Some("8056c2e21c000001"), None, Some("0123456789"));
    assert_eq!(
        m.rfc4193_address(),
        Some("fd80:56c2:e21c:0000:0199:9301:2345:6789".to_string())
    );
}

#[test]
fn sixplane_rejects_non_hex_network_id() {
    let m = member(Some("8056c2e21c00000z"), Some("0123456789"), None);
    assert_eq!(m.sixplane_address(), None);
    assert!(m.rfc4193_address().is_some());
}

#[test]
fn sixplane_accepts_upper_case_network_id() {
    let m = member(Some("8056C2E21C000001"), Some("0123456789"), None);
    assert_eq!(
        m.sixplane_address(),
        Some("fc9c:56c2:e301:2345:6789:0000:0000:0001".to_string())
    );
}
