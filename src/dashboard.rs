//! The dashboard's figures, counted over the networks a user may read.
use vstd::prelude::*;
use crate::models::{ControllerMember, ControllerNetwork, MemberView, id_text};
use crate::address::{rfc4193_of, sixplane_of};
use crate::config::TextMap;
use crate::text::opt_chars;
use crate::permissions::{User, can_read, permissions_on};
use crate::snapshot::{ZtState, lookup, members_view};

verus! {

/// Whether the user may read network `n`, named by its shown identifier.
pub open spec fn readable(u: User, n: ControllerNetwork) -> bool {
    permissions_on(u, id_text(n@.nwid, n@.id)).read
}

/// The member list the snapshot holds for network `n`, empty if none.
pub open spec fn members_of_network(map: Seq<(Seq<char>, Seq<MemberView>)>, n: ControllerNetwork) -> Seq<MemberView> {
    match lookup(map, id_text(n@.nwid, n@.id)) {
        Some(v) => v,
        None => Seq::empty(),
    }
}

/// The number of authorized members of a list.
pub open spec fn authorized_count(s: Seq<MemberView>) -> nat
    decreases s.len(),
{
    if s.len() == 0 {
        0
    } else {
        authorized_count(s.drop_last()) + if s.last().authorized == Some(true) {
            1nat
        } else {
            0nat
        }
    }
}

/// The networks the user may read, their members, and the authorized
/// ones among those.
pub open spec fn visible_totals(u: User, map: Seq<(Seq<char>, Seq<MemberView>)>, nets: Seq<ControllerNetwork>) -> (nat, nat, nat)
    decreases nets.len(),
{
    if nets.len() == 0 {
        (0, 0, 0)
    } else {
        let t = visible_totals(u, map, nets.drop_last());
        let n = nets.last();
        if readable(u, n) {
            (
                t.0 + 1,
                t.1 + members_of_network(map, n).len(),
                t.2 + authorized_count(members_of_network(map, n)),
            )
        } else {
            t
        }
    }
}

/// `n`, or the largest `usize` when it does not fit.
pub open spec fn capped(n: nat) -> nat {
    if n <= usize::MAX {
        n
    } else {
        usize::MAX as nat
    }
}

/// The dashboard's figures.
#[derive(Debug, Clone, Copy, PartialEq, Eq, Structural)]
pub struct DashboardStats {
    pub network_count: usize,
    pub total_members: usize,
    pub authorized_members: usize,
}

fn count_authorized(v: &Vec<crate::models::ControllerMember>) -> (r: usize)
    ensures
        r == authorized_count(members_view(v@)),
{
    let mut c: usize = 0;
    let mut i: usize = 0;
    while i < v.len()
        invariant
            i <= v.len(),
            c == authorized_count(members_view(v@).take(i as int)),
            c <= i,
        decreases v.len() - i,
    {
        proof {
            assert(members_view(v@).take(i + 1).drop_last() =~= members_view(v@).take(i as int));
        }
        if v[i].is_authorized() {
            c = c + 1;
        }
        i = i + 1;
    }
    proof {
        assert(members_view(v@).take(v.len() as int) =~= members_view(v@));
    }
    c
}

/// Counts the networks of the snapshot that `user` may read, their
/// members, and the authorized members among those.
pub fn dashboard_stats(zt: &ZtState, user: &User) -> (r: DashboardStats)
    ensures
        r.network_count == visible_totals(*user, zt.controller_members@, zt.controller_networks@).0,
        r.total_members == capped(
            visible_totals(*user, zt.controller_members@, zt.controller_networks@).1,
        ),
        r.authorized_members == capped(
            visible_totals(*user, zt.controller_members@, zt.controller_networks@).2,
        ),
{
    let ghost nets = zt.controller_networks@;
    let ghost map = zt.controller_members@;
    let mut count: usize = 0;
    let mut total: usize = 0;
    let mut authorized: usize = 0;
    let mut i: usize = 0;
    while i < zt.controller_networks.len()
        invariant
            nets == zt.controller_networks@,
            map == zt.controller_members@,
            i <= nets.len(),
            count <= i,
            count == visible_totals(*user, map, nets.take(i as int)).0,
            total == capped(visible_totals(*user, map, nets.take(i as int)).1),
            authorized == capped(visible_totals(*user, map, nets.take(i as int)).2),
        decreases nets.len() - i,
    {
        proof {
            assert(nets.take(i + 1).drop_last() =~= nets.take(i as int));
            assert(nets.take(i + 1).last() == nets[i as int]);
        }
        let net = &zt.controller_networks[i];
        if can_read(user, net.display_id()) {
            count = count + 1;
            match zt.controller_members.get(net.display_id()) {
                Some(list) => {
                    total = total.saturating_add(list.len());
                    authorized = authorized.saturating_add(count_authorized(list));
                },
                None => {},
            }
        }
        i = i + 1;
    }
    proof {
        assert(nets.take(nets.len() as int) =~= nets);
    }
    DashboardStats { network_count: count, total_members: total, authorized_members: authorized }
}

/// A member as the member list shows it: with its local name and, when the
/// network assigns them, its derived addresses.
#[derive(Debug)]
pub struct MemberDisplayRow {
    pub member: ControllerMember,
    pub name: String,
    pub rfc4193_addr: Option<String>,
    pub sixplane_addr: Option<String>,
}

/// The IPv6 assignment modes of a network, all off when absent.
pub open spec fn v6_mode(n: ControllerNetwork) -> crate::models::V6AssignMode {
    match n.v6_assign_mode {
        Some(m) => m,
        None => crate::models::V6AssignMode { sixplane: false, rfc4193: false, zt: false },
    }
}

/// The local name of a member, empty when none is recorded.
pub open spec fn name_of(names: Seq<(Seq<char>, Seq<char>)>, m: MemberView) -> Seq<char> {
    match lookup(names, crate::models::member_key(m)) {
        Some(n) => n,
        None => Seq::empty(),
    }
}

/// Pairs each member with its local name and the addresses the network's
/// IPv6 modes give it, keeping the members' order.
pub fn enrich_members(members: Vec<ControllerMember>, member_names: &TextMap, network: &ControllerNetwork) -> (r: Vec<MemberDisplayRow>)
    ensures
        r@.len() == members@.len(),
        forall|i: int| 0 <= i < r@.len() ==> {
            let row = #[trigger] r@[i];
            let m = members@[i];
            &&& row.member == m
            &&& row.name@ == name_of(member_names@, m@)
            &&& opt_chars(row.rfc4193_addr) == (if v6_mode(*network).rfc4193 { rfc4193_of(m@) } else { None })
            &&& opt_chars(row.sixplane_addr) == (if v6_mode(*network).sixplane { sixplane_of(m@) } else { None })
        },
{
    let show_rfc4193 = network.v6_rfc4193();
    let show_sixplane = network.v6_sixplane();
    let ghost orig = members@;
    let mut rest = members;
    let mut rows: Vec<MemberDisplayRow> = Vec::new();
    assert(orig.skip(0) =~= orig);
    while rest.len() > 0
        invariant
            show_rfc4193 == v6_mode(*network).rfc4193,
            show_sixplane == v6_mode(*network).sixplane,
            rows@.len() <= orig.len(),
            rest@ == orig.skip(rows@.len() as int),
            forall|i: int| 0 <= i < rows@.len() ==> {
                let row = #[trigger] rows@[i];
                let m = orig[i];
                &&& row.member == m
                &&& row.name@ == name_of(member_names@, m@)
                &&& opt_chars(row.rfc4193_addr) == (if show_rfc4193 { rfc4193_of(m@) } else { None })
                &&& opt_chars(row.sixplane_addr) == (if show_sixplane { sixplane_of(m@) } else { None })
            },
        decreases rest.len(),
    {
        let ghost k = rows@.len() as int;
        let m = rest.remove(0);
        proof {
            assert(orig[k] == m);
            assert(rest@ =~= orig.skip(k + 1));
        }
        let name = match member_names.get(m.display_id()) {
            Some(n) => n.clone(),
            None => String::new(),
        };
        let rfc4193_addr = if show_rfc4193 {
            m.rfc4193_address()
        } else {
            None
        };
        let sixplane_addr = if show_sixplane {
            m.sixplane_address()
        } else {
            None
        };
        rows.push(MemberDisplayRow { member: m, name, rfc4193_addr, sixplane_addr });
    }
    rows
}

/// The first network of the snapshot shown under `nwid`, if any.
pub fn find_network<'a>(zt: &'a ZtState, nwid: &str) -> (r: Option<&'a ControllerNetwork>)
    ensures
        match r {
            Some(n) => exists|i: int|
                0 <= i < zt.controller_networks@.len() && zt.controller_networks@[i] == *n
                    && id_text(n@.nwid, n@.id) == nwid@ && forall|j: int|
                    0 <= j < i ==> id_text(
                        (#[trigger] zt.controller_networks@[j])@.nwid,
                        zt.controller_networks@[j]@.id,
                    ) != nwid@,
            None => forall|i: int|
                0 <= i < zt.controller_networks@.len() ==> id_text(
                    (#[trigger] zt.controller_networks@[i])@.nwid,
                    zt.controller_networks@[i]@.id,
                ) != nwid@,
        },
{
    let mut i: usize = 0;
    while i < zt.controller_networks.len()
        invariant
            i <= zt.controller_networks@.len(),
            forall|j: int|
                0 <= j < i ==> id_text(
                    (#[trigger] zt.controller_networks@[j])@.nwid,
                    zt.controller_networks@[j]@.id,
                ) != nwid@,
        decreases zt.controller_networks@.len() - i,
    {
        if crate::text::str_eq(zt.controller_networks[i].display_id(), nwid) {
            return Some(&zt.controller_networks[i]);
        }
        i = i + 1;
    }
    None
}

/// The number of members of a list and of the authorized ones among them.
pub fn member_counts(members: &Vec<ControllerMember>) -> (r: (usize, usize))
    ensures
        r.0 == members@.len(),
        r.1 == authorized_count(members_view(members@)),
{
    (members.len(), count_authorized(members))
}

} // verus!
