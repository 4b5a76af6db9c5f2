//! The changes that the network and member forms ask of the remote
//! controller: each form's fields become the values sent in the update.
use vstd::prelude::*;
use crate::models::{
    ControllerRoute, DnsConfig, IpAssignmentPool, PoolView, RouteView, V4AssignMode, V6AssignMode,
    pools_view, routes_view,
};
use crate::text::{lowercase_str, lowercased, opt_chars, strs_chars, trim_str, trimmed};
use crate::address::hex_value;

verus! {

/// A checkbox of a form: present when ticked.
pub open spec fn ticked(o: Option<String>) -> bool {
    o is Some
}

pub struct UpdateSettingsForm {
    pub name: Option<String>,
    pub private: Option<String>,
}

pub struct UpdateBroadcastForm {
    pub enable_broadcast: Option<String>,
    pub multicast_limit: Option<u32>,
}

pub struct UpdateAssignModesForm {
    pub v4_auto_assign: Option<String>,
    pub v6_rfc4193: Option<String>,
    pub v6_sixplane: Option<String>,
    pub v6_auto_assign: Option<String>,
}

pub struct AddPoolForm {
    pub range_start: String,
    pub range_end: String,
}

pub struct RemovePoolForm {
    pub index: usize,
}

pub struct AddRouteForm {
    pub target: String,
    pub via: Option<String>,
}

pub struct RemoveRouteForm {
    pub index: usize,
}

pub struct AddDnsForm {
    pub domain: Option<String>,
    pub server: String,
}

pub struct RemoveDnsForm {
    pub index: usize,
}

pub struct AddMemberForm {
    pub node_id: String,
}

/// The name (empty when absent) and the privacy flag to set.
pub fn settings_update(form: UpdateSettingsForm) -> (r: (String, bool))
    ensures
        r.0@ == (match form.name {
            Some(n) => n@,
            None => Seq::<char>::empty(),
        }),
        r.1 == ticked(form.private),
{
    let name = match form.name {
        Some(n) => n,
        None => String::new(),
    };
    (name, form.private.is_some())
}

/// Whether broadcast is on, and the multicast limit (32 when absent).
pub fn broadcast_update(form: &UpdateBroadcastForm) -> (r: (bool, u32))
    ensures
        r.0 == ticked(form.enable_broadcast),
        r.1 == (match form.multicast_limit {
            Some(m) => m,
            None => 32,
        }),
{
    let limit = match form.multicast_limit {
        Some(m) => m,
        None => 32,
    };
    (form.enable_broadcast.is_some(), limit)
}

/// The address assignment modes to set.
pub fn assign_modes_update(form: &UpdateAssignModesForm) -> (r: (V4AssignMode, V6AssignMode))
    ensures
        r.0.zt == ticked(form.v4_auto_assign),
        r.1.rfc4193 == ticked(form.v6_rfc4193),
        r.1.sixplane == ticked(form.v6_sixplane),
        r.1.zt == ticked(form.v6_auto_assign),
{
    (
        V4AssignMode { zt: form.v4_auto_assign.is_some() },
        V6AssignMode {
            sixplane: form.v6_sixplane.is_some(),
            rfc4193: form.v6_rfc4193.is_some(),
            zt: form.v6_auto_assign.is_some(),
        },
    )
}

/// `s` without the entry at `i`, or unchanged when there is none.
pub open spec fn without_index<A>(s: Seq<A>, i: int) -> Seq<A> {
    if 0 <= i < s.len() {
        s.remove(i)
    } else {
        s
    }
}

fn copy_opt(o: &Option<String>) -> (r: Option<String>)
    ensures
        opt_chars(r) == opt_chars(*o),
{
    match o {
        Some(s) => Some(s.clone()),
        None => None,
    }
}

fn copy_pools(v: &Vec<IpAssignmentPool>, skip: usize) -> (r: Vec<IpAssignmentPool>)
    ensures
        pools_view(r@) == without_index(pools_view(v@), skip as int),
{
    let mut out: Vec<IpAssignmentPool> = Vec::new();
    let mut i: usize = 0;
    while i < v.len()
        invariant
            i <= v.len(),
            pools_view(out@) == without_index(pools_view(v@).take(i as int), skip as int),
        decreases v.len() - i,
    {
        proof {
            let s = pools_view(v@);
            assert(s.take(i + 1) =~= s.take(i as int).push(s[i as int]));
            if skip < i {
                assert(s.take(i + 1).remove(skip as int) =~= s.take(i as int).remove(
                    skip as int,
                ).push(s[i as int]));
            } else if skip == i {
                assert(s.take(i + 1).remove(skip as int) =~= s.take(i as int));
            }
        }
        if i != skip {
            let p = IpAssignmentPool {
                ip_range_start: copy_opt(&v[i].ip_range_start),
                ip_range_end: copy_opt(&v[i].ip_range_end),
            };
            out.push(p);
            proof {
                assert(pools_view(out@) =~= pools_view(out@.drop_last()).push(p@));
            }
        }
        i = i + 1;
    }
    proof {
        assert(pools_view(v@).take(v.len() as int) =~= pools_view(v@));
    }
    out
}

fn copy_routes(v: &Vec<ControllerRoute>, skip: usize) -> (r: Vec<ControllerRoute>)
    ensures
        routes_view(r@) == without_index(routes_view(v@), skip as int),
{
    let mut out: Vec<ControllerRoute> = Vec::new();
    let mut i: usize = 0;
    while i < v.len()
        invariant
            i <= v.len(),
            routes_view(out@) == without_index(routes_view(v@).take(i as int), skip as int),
        decreases v.len() - i,
    {
        proof {
            let s = routes_view(v@);
            assert(s.take(i + 1) =~= s.take(i as int).push(s[i as int]));
            if skip < i {
                assert(s.take(i + 1).remove(skip as int) =~= s.take(i as int).remove(
                    skip as int,
                ).push(s[i as int]));
            } else if skip == i {
                assert(s.take(i + 1).remove(skip as int) =~= s.take(i as int));
            }
        }
        if i != skip {
            let p = ControllerRoute { target: copy_opt(&v[i].target), via: copy_opt(&v[i].via) };
            out.push(p);
            proof {
                assert(routes_view(out@) =~= routes_view(out@.drop_last()).push(p@));
            }
        }
        i = i + 1;
    }
    proof {
        assert(routes_view(v@).take(v.len() as int) =~= routes_view(v@));
    }
    out
}

/// The pools after adding the form's range, its ends trimmed, at the end.
pub fn pools_after_add(current: &Vec<IpAssignmentPool>, form: &AddPoolForm) -> (r: Vec<IpAssignmentPool>)
    ensures
        pools_view(r@) == pools_view(current@).push(
            PoolView {
                start: Some(trimmed(form.range_start@)),
                end: Some(trimmed(form.range_end@)),
            },
        ),
{
    let mut out = copy_pools(current, current.len());
    let p = IpAssignmentPool {
        ip_range_start: Some(String::from_str(trim_str(form.range_start.as_str()))),
        ip_range_end: Some(String::from_str(trim_str(form.range_end.as_str()))),
    };
    out.push(p);
    proof {
        assert(pools_view(out@) =~= pools_view(out@.drop_last()).push(p@));
    }
    out
}

/// The pools without the one at the form's index (unchanged when there is none).
pub fn pools_after_remove(current: &Vec<IpAssignmentPool>, form: &RemovePoolForm) -> (r: Vec<IpAssignmentPool>)
    ensures
        pools_view(r@) == without_index(pools_view(current@), form.index as int),
{
    copy_pools(current, form.index)
}

/// The next hop a route form gives: its trimmed text, none when blank.
pub open spec fn via_of(via: Option<String>) -> Option<Seq<char>> {
    match via {
        Some(v) if trimmed(v@).len() > 0 => Some(trimmed(v@)),
        _ => None,
    }
}

/// The routes after adding the form's route, trimmed, at the end.
pub fn routes_after_add(current: &Vec<ControllerRoute>, form: &AddRouteForm) -> (r: Vec<ControllerRoute>)
    ensures
        routes_view(r@) == routes_view(current@).push(
            RouteView { target: Some(trimmed(form.target@)), via: via_of(form.via) },
        ),
{
    let mut out = copy_routes(current, current.len());
    let via = match &form.via {
        Some(v) => {
            let t = trim_str(v.as_str());
            if t.unicode_len() > 0 {
                Some(String::from_str(t))
            } else {
                None
            }
        },
        None => None,
    };
    let p = ControllerRoute { target: Some(String::from_str(trim_str(form.target.as_str()))), via };
    out.push(p);
    proof {
        assert(routes_view(out@) =~= routes_view(out@.drop_last()).push(p@));
    }
    out
}

/// The routes without the one at the form's index (unchanged when there is none).
pub fn routes_after_remove(current: &Vec<ControllerRoute>, form: &RemoveRouteForm) -> (r: Vec<ControllerRoute>)
    ensures
        routes_view(r@) == without_index(routes_view(current@), form.index as int),
{
    copy_routes(current, form.index)
}

fn copy_strs(v: &Vec<String>, skip: usize) -> (r: Vec<String>)
    ensures
        strs_chars(r@) == without_index(strs_chars(v@), skip as int),
{
    let mut out: Vec<String> = Vec::new();
    let mut i: usize = 0;
    while i < v.len()
        invariant
            i <= v.len(),
            strs_chars(out@) == without_index(strs_chars(v@).take(i as int), skip as int),
        decreases v.len() - i,
    {
        proof {
            let s = strs_chars(v@);
            assert(s.take(i + 1) =~= s.take(i as int).push(s[i as int]));
            if skip < i {
                assert(s.take(i + 1).remove(skip as int) =~= s.take(i as int).remove(
                    skip as int,
                ).push(s[i as int]));
            } else if skip == i {
                assert(s.take(i + 1).remove(skip as int) =~= s.take(i as int));
            }
        }
        if i != skip {
            let c = v[i].clone();
            out.push(c);
            proof {
                assert(strs_chars(out@) =~= strs_chars(out@.drop_last()).push(c@));
            }
        }
        i = i + 1;
    }
    proof {
        assert(strs_chars(v@).take(v.len() as int) =~= strs_chars(v@));
    }
    out
}

/// The DNS settings after the add form: its trimmed server appended when
/// not blank and not listed yet; its trimmed domain when not blank, else
/// the current one.
pub open spec fn dns_added(servers: Seq<Seq<char>>, domain: Seq<char>, form: AddDnsForm) -> (Seq<char>, Seq<Seq<char>>) {
    let s = trimmed(form.server@);
    (
        match form.domain {
            Some(d) if trimmed(d@).len() > 0 => trimmed(d@),
            _ => domain,
        },
        if s.len() > 0 && !servers.contains(s) {
            servers.push(s)
        } else {
            servers
        },
    )
}

pub fn dns_after_add(current: &DnsConfig, form: &AddDnsForm) -> (r: DnsConfig)
    ensures
        (r@.domain, r@.servers) == dns_added(current@.servers, current@.domain, *form),
{
    let mut servers = copy_strs(&current.servers, current.servers.len());
    let server = String::from_str(trim_str(form.server.as_str()));
    if server.as_str().unicode_len() > 0 {
        let mut found = false;
        let mut i: usize = 0;
        while i < servers.len()
            invariant
                i <= servers.len(),
                found == (exists|k: int| 0 <= k < i && strs_chars(servers@)[k] == server@),
            decreases servers.len() - i,
        {
            assert(strs_chars(servers@)[i as int] == servers@[i as int]@);
            if servers[i] == server {
                found = true;
            }
            proof {
                if !found {
                    assert forall|k: int| 0 <= k < i + 1 implies strs_chars(servers@)[k] != server@ by {
                        if k < i {
                        }
                    }
                }
            }
            i = i + 1;
        }
        if !found {
            let ghost before = servers@;
            servers.push(server);
            proof {
                assert(strs_chars(servers@) =~= strs_chars(before).push(server@));
            }
        } else {
            proof {
                let k = choose|k: int| 0 <= k < servers@.len() && strs_chars(servers@)[k] == server@;
                assert(strs_chars(servers@).contains(server@));
            }
        }
    }
    let domain = match &form.domain {
        Some(d) => {
            let t = trim_str(d.as_str());
            if t.unicode_len() > 0 {
                String::from_str(t)
            } else {
                current.domain.clone()
            }
        },
        None => current.domain.clone(),
    };
    DnsConfig { domain, servers }
}

/// The DNS settings without the server at the form's index; the domain is
/// cleared when no server is left.
pub fn dns_after_remove(current: &DnsConfig, form: &RemoveDnsForm) -> (r: DnsConfig)
    ensures
        r@.servers == without_index(current@.servers, form.index as int),
        r@.domain == (if r@.servers.len() == 0 { Seq::<char>::empty() } else { current@.domain }),
{
    let servers = copy_strs(&current.servers, form.index);
    let domain = if servers.len() == 0 {
        String::new()
    } else {
        current.domain.clone()
    };
    proof {
        assert(strs_chars(servers@).len() == servers@.len());
    }
    DnsConfig { domain, servers }
}

/// Whether a text is ten ASCII hexadecimal digits, the form of a node id.
pub open spec fn is_node_id(s: Seq<char>) -> bool {
    s.len() == 10 && forall|i: int| 0 <= i < 10 ==> ('0' <= #[trigger] s[i] <= '9' || 'a' <= s[i] <= 'f' || 'A' <= s[i] <= 'F')
}

/// Checks a node id already trimmed and lower-cased.
pub fn valid_node_id(s: &str) -> (r: bool)
    ensures
        r == is_node_id(s@),
{
    if s.unicode_len() != 10 {
        return false;
    }
    let mut i: usize = 0;
    while i < 10
        invariant
            s@.len() == 10,
            i <= 10,
            forall|k: int| 0 <= k < i ==> ('0' <= #[trigger] s@[k] <= '9' || 'a' <= s@[k] <= 'f' || 'A' <= s@[k] <= 'F'),
        decreases 10 - i,
    {
        let c = s.get_char(i);
        if !(('0' <= c && c <= '9') || ('a' <= c && c <= 'f') || ('A' <= c && c <= 'F')) {
            return false;
        }
        i = i + 1;
    }
    true
}

/// The node id of the add-member form, trimmed and lower-cased, when it is
/// ten hexadecimal digits; `None` otherwise.
pub fn node_id_of(form: &AddMemberForm) -> (r: Option<String>)
    ensures
        match r {
            Some(id) => id@ == lowercased(trimmed(form.node_id@)) && is_node_id(id@),
            None => !is_node_id(lowercased(trimmed(form.node_id@))),
        },
{
    let id = lowercase_str(trim_str(form.node_id.as_str()));
    if valid_node_id(id.as_str()) {
        Some(id)
    } else {
        None
    }
}

pub struct UpdateMemberForm {
    pub name: Option<String>,
    pub authorized: Option<String>,
    pub active_bridge: Option<String>,
    pub no_auto_assign_ips: Option<String>,
    pub ip_assignments: Option<String>,
}

/// What the member form changes: the local name (trimmed) and the values
/// sent to the controller.
#[derive(Debug)]
pub struct MemberUpdate {
    pub name: String,
    pub authorized: bool,
    pub active_bridge: bool,
    pub no_auto_assign_ips: bool,
    pub ip_assignments: Vec<String>,
}

/// Commas and line feeds separate the addresses of the member form.
pub open spec fn is_separator(c: char) -> bool {
    c == ',' || c == '\n'
}

/// The pieces of `s` between separators, empty ones included.
pub open spec fn pieces(s: Seq<char>) -> Seq<Seq<char>>
    decreases s.len(),
{
    if s.len() == 0 {
        seq![Seq::empty()]
    } else {
        let p = pieces(s.drop_last());
        if is_separator(s.last()) {
            p.push(Seq::empty())
        } else {
            p.update(p.len() - 1, p.last().push(s.last()))
        }
    }
}

/// Each piece trimmed, the blank ones left out.
pub open spec fn kept(ps: Seq<Seq<char>>) -> Seq<Seq<char>>
    decreases ps.len(),
{
    if ps.len() == 0 {
        Seq::empty()
    } else {
        let k = kept(ps.drop_last());
        if trimmed(ps.last()).len() > 0 {
            k.push(trimmed(ps.last()))
        } else {
            k
        }
    }
}

proof fn lemma_pieces_nonempty(s: Seq<char>)
    ensures
        pieces(s).len() >= 1,
    decreases s.len(),
{
    if s.len() > 0 {
        lemma_pieces_nonempty(s.drop_last());
    }
}

/// The addresses of a comma- or line-separated list, trimmed, blanks left out.
pub fn parse_ip_list(text: &str) -> (r: Vec<String>)
    ensures
        strs_chars(r@) == kept(pieces(text@)),
{
    let n = text.unicode_len();
    let mut done: Vec<String> = Vec::new();
    let mut cur = String::new();
    let mut i: usize = 0;
    assert(text@.take(0) =~= Seq::<char>::empty());
    assert(strs_chars(done@).push(cur@) =~= seq![Seq::<char>::empty()]);
    while i < n
        invariant
            n == text@.len(),
            i <= n,
            strs_chars(done@).push(cur@) == pieces(text@.take(i as int)),
        decreases n - i,
    {
        let c = text.get_char(i);
        proof {
            assert(text@.take(i + 1).drop_last() =~= text@.take(i as int));
            assert(text@.take(i + 1).last() == c);
            lemma_pieces_nonempty(text@.take(i as int));
        }
        if c == ',' || c == '\n' {
            let ghost d = done@;
            let piece = cur;
            done.push(piece);
            cur = String::new();
            proof {
                assert(strs_chars(done@) =~= strs_chars(d).push(piece@));
                assert(strs_chars(done@).push(cur@) =~= strs_chars(d).push(piece@).push(Seq::empty()));
            }
        } else {
            let ghost old_cur = cur@;
            crate::text::push_char(&mut cur, c);
            proof {
                assert(strs_chars(done@).push(cur@) =~= strs_chars(done@).push(old_cur).update(
                    strs_chars(done@).len() as int,
                    old_cur.push(c),
                ));
            }
        }
        i = i + 1;
    }
    let ghost last = cur@;
    done.push(cur);
    proof {
        assert(text@.take(n as int) =~= text@);
        assert(strs_chars(done@) =~= pieces(text@));
    }
    let ghost all = strs_chars(done@);
    let mut out: Vec<String> = Vec::new();
    let mut j: usize = 0;
    while j < done.len()
        invariant
            all == strs_chars(done@),
            j <= done@.len(),
            strs_chars(out@) == kept(all.take(j as int)),
        decreases done@.len() - j,
    {
        proof {
            assert(all.take(j + 1).drop_last() =~= all.take(j as int));
            assert(all.take(j + 1).last() == done@[j as int]@);
        }
        let t = trim_str(done[j].as_str());
        if t.unicode_len() > 0 {
            let ghost o = out@;
            let piece = String::from_str(t);
            out.push(piece);
            proof {
                assert(strs_chars(out@) =~= strs_chars(o).push(piece@));
            }
        }
        j = j + 1;
    }
    proof {
        assert(all.take(done@.len() as int) =~= all);
    }
    out
}

/// The update the member form asks for.
pub fn member_update(form: &UpdateMemberForm) -> (r: MemberUpdate)
    ensures
        r.name@ == trimmed(match form.name {
            Some(n) => n@,
            None => Seq::<char>::empty(),
        }),
        r.authorized == ticked(form.authorized),
        r.active_bridge == ticked(form.active_bridge),
        r.no_auto_assign_ips == ticked(form.no_auto_assign_ips),
        strs_chars(r.ip_assignments@) == kept(pieces(match form.ip_assignments {
            Some(t) => t@,
            None => Seq::<char>::empty(),
        })),
{
    proof {
        reveal_strlit("");
        assert(""@ =~= Seq::<char>::empty());
    }
    let name = match &form.name {
        Some(n) => String::from_str(trim_str(n.as_str())),
        None => String::from_str(trim_str("")),
    };
    let ips = match &form.ip_assignments {
        Some(t) => parse_ip_list(t.as_str()),
        None => parse_ip_list(""),
    };
    MemberUpdate {
        name,
        authorized: form.authorized.is_some(),
        active_bridge: form.active_bridge.is_some(),
        no_auto_assign_ips: form.no_auto_assign_ips.is_some(),
        ip_assignments: ips,
    }
}

} // verus!
