//! The controller's entities as the remote API reports them, each with a
//! mathematical view over which equality between two fetches is stated.
use vstd::prelude::*;
use crate::text::{
    dec_text, join, join_strs, opt_chars, opt_str_eq, push_decimal, str_contains_char, str_vec_eq,
    strs_chars,
};

verus! {

/// The local node's status. `config` holds the node's configuration blob as
/// JSON text, passed through uninterpreted.
#[derive(Debug, Clone)]
pub struct NodeStatus {
    pub address: Option<String>,
    pub public_identity: Option<String>,
    pub online: Option<bool>,
    pub tcp_fallback_active: Option<bool>,
    pub version: Option<String>,
    pub clock: Option<i64>,
    pub config: String,
}

pub struct StatusView {
    pub address: Option<Seq<char>>,
    pub public_identity: Option<Seq<char>>,
    pub online: Option<bool>,
    pub tcp_fallback_active: Option<bool>,
    pub version: Option<Seq<char>>,
    pub clock: Option<i64>,
    pub config: Seq<char>,
}

impl View for NodeStatus {
    type V = StatusView;

    open spec fn view(&self) -> StatusView {
        StatusView {
            address: opt_chars(self.address),
            public_identity: opt_chars(self.public_identity),
            online: self.online,
            tcp_fallback_active: self.tcp_fallback_active,
            version: opt_chars(self.version),
            clock: self.clock,
            config: self.config@,
        }
    }
}

impl PartialEq for NodeStatus {
    fn eq(&self, o: &NodeStatus) -> (r: bool) {
        opt_str_eq(&self.address, &o.address) && opt_str_eq(&self.public_identity, &o.public_identity)
            && self.online == o.online && self.tcp_fallback_active == o.tcp_fallback_active
            && opt_str_eq(&self.version, &o.version) && self.clock == o.clock && self.config
            == o.config
    }
}

impl vstd::std_specs::cmp::PartialEqSpecImpl for NodeStatus {
    open spec fn obeys_eq_spec() -> bool {
        true
    }

    open spec fn eq_spec(&self, o: &NodeStatus) -> bool {
        self@ == o@
    }
}

/// The text shown for an optional field: its value, or `dflt` when absent.
pub open spec fn or_text(o: Option<Seq<char>>, dflt: Seq<char>) -> Seq<char> {
    match o {
        Some(s) => s,
        None => dflt,
    }
}

fn text_or<'a>(o: &'a Option<String>, dflt: &'a str) -> (r: &'a str)
    ensures
        r@ == or_text(opt_chars(*o), dflt@),
{
    match o {
        Some(s) => s.as_str(),
        None => dflt,
    }
}

impl NodeStatus {
    pub fn display_address(&self) -> (r: &str)
        ensures
            r@ == or_text(self@.address, "-"@),
    {
        text_or(&self.address, "-")
    }

    pub fn display_version(&self) -> (r: &str)
        ensures
            r@ == or_text(self@.version, "-"@),
    {
        text_or(&self.version, "-")
    }

    pub fn is_online(&self) -> (r: bool)
        ensures
            r == (self.online == Some(true)),
    {
        match self.online {
            Some(b) => b,
            None => false,
        }
    }
}

#[derive(Debug, Clone, Copy, PartialEq, Eq, Structural, Default)]
pub struct V4AssignMode {
    pub zt: bool,
}

#[derive(Debug, Clone, Copy, PartialEq, Eq, Structural, Default)]
pub struct V6AssignMode {
    pub sixplane: bool,
    pub rfc4193: bool,
    pub zt: bool,
}

/// A managed route: a target CIDR and an optional next hop.
#[derive(Debug, Clone)]
pub struct ControllerRoute {
    pub target: Option<String>,
    pub via: Option<String>,
}

pub struct RouteView {
    pub target: Option<Seq<char>>,
    pub via: Option<Seq<char>>,
}

impl View for ControllerRoute {
    type V = RouteView;

    open spec fn view(&self) -> RouteView {
        RouteView { target: opt_chars(self.target), via: opt_chars(self.via) }
    }
}

impl PartialEq for ControllerRoute {
    fn eq(&self, o: &ControllerRoute) -> (r: bool) {
        opt_str_eq(&self.target, &o.target) && opt_str_eq(&self.via, &o.via)
    }
}

impl vstd::std_specs::cmp::PartialEqSpecImpl for ControllerRoute {
    open spec fn obeys_eq_spec() -> bool {
        true
    }

    open spec fn eq_spec(&self, o: &ControllerRoute) -> bool {
        self@ == o@
    }
}

/// Whether an optional address text holds a colon, which marks IPv6.
pub open spec fn is_v6_text(o: Option<Seq<char>>) -> bool {
    match o {
        Some(s) => s.contains(':'),
        None => false,
    }
}

fn opt_has_colon(o: &Option<String>) -> (r: bool)
    ensures
        r == is_v6_text(opt_chars(*o)),
{
    match o {
        Some(s) => str_contains_char(s.as_str(), ':'),
        None => false,
    }
}

impl ControllerRoute {
    pub fn display_target(&self) -> (r: &str)
        ensures
            r@ == or_text(self@.target, "-"@),
    {
        text_or(&self.target, "-")
    }

    pub fn display_via(&self) -> (r: &str)
        ensures
            r@ == or_text(self@.via, "(LAN)"@),
    {
        text_or(&self.via, "(LAN)")
    }

    pub fn is_ipv6(&self) -> (r: bool)
        ensures
            r == is_v6_text(self@.target),
    {
        opt_has_colon(&self.target)
    }

    pub fn is_ipv4(&self) -> (r: bool)
        ensures
            r == !is_v6_text(self@.target),
    {
        !self.is_ipv6()
    }
}

/// A range of addresses handed out automatically.
#[derive(Debug, Clone)]
pub struct IpAssignmentPool {
    pub ip_range_start: Option<String>,
    pub ip_range_end: Option<String>,
}

pub struct PoolView {
    pub start: Option<Seq<char>>,
    pub end: Option<Seq<char>>,
}

impl View for IpAssignmentPool {
    type V = PoolView;

    open spec fn view(&self) -> PoolView {
        PoolView { start: opt_chars(self.ip_range_start), end: opt_chars(self.ip_range_end) }
    }
}

impl PartialEq for IpAssignmentPool {
    fn eq(&self, o: &IpAssignmentPool) -> (r: bool) {
        opt_str_eq(&self.ip_range_start, &o.ip_range_start) && opt_str_eq(
            &self.ip_range_end,
            &o.ip_range_end,
        )
    }
}

impl vstd::std_specs::cmp::PartialEqSpecImpl for IpAssignmentPool {
    open spec fn obeys_eq_spec() -> bool {
        true
    }

    open spec fn eq_spec(&self, o: &IpAssignmentPool) -> bool {
        self@ == o@
    }
}

/// `start - end` when both ends are present, `-` otherwise.
pub open spec fn range_text(p: PoolView) -> Seq<char> {
    match (p.start, p.end) {
        (Some(s), Some(e)) => s + " - "@ + e,
        _ => "-"@,
    }
}

impl IpAssignmentPool {
    pub fn display_start(&self) -> (r: &str)
        ensures
            r@ == or_text(self@.start, "-"@),
    {
        text_or(&self.ip_range_start, "-")
    }

    pub fn display_end(&self) -> (r: &str)
        ensures
            r@ == or_text(self@.end, "-"@),
    {
        text_or(&self.ip_range_end, "-")
    }

    pub fn _display_range(&self) -> (r: String)
        ensures
            r@ == range_text(self@),
    {
        match (&self.ip_range_start, &self.ip_range_end) {
            (Some(s), Some(e)) => {
                let mut out = s.clone();
                out.append(" - ");
                out.append(e.as_str());
                out
            },
            _ => String::from_str("-"),
        }
    }

    pub fn is_ipv6(&self) -> (r: bool)
        ensures
            r == is_v6_text(self@.start),
    {
        opt_has_colon(&self.ip_range_start)
    }

    pub fn is_ipv4(&self) -> (r: bool)
        ensures
            r == !is_v6_text(self@.start),
    {
        !self.is_ipv6()
    }
}

/// A network's DNS settings: the search domain and the server list.
#[derive(Debug, Clone)]
pub struct DnsConfig {
    pub domain: String,
    pub servers: Vec<String>,
}

pub struct DnsView {
    pub domain: Seq<char>,
    pub servers: Seq<Seq<char>>,
}

impl View for DnsConfig {
    type V = DnsView;

    open spec fn view(&self) -> DnsView {
        DnsView { domain: self.domain@, servers: strs_chars(self.servers@) }
    }
}

impl PartialEq for DnsConfig {
    fn eq(&self, o: &DnsConfig) -> (r: bool) {
        self.domain == o.domain && str_vec_eq(&self.servers, &o.servers)
    }
}

impl vstd::std_specs::cmp::PartialEqSpecImpl for DnsConfig {
    open spec fn obeys_eq_spec() -> bool {
        true
    }

    open spec fn eq_spec(&self, o: &DnsConfig) -> bool {
        self@ == o@
    }
}

impl DnsConfig {
    /// An empty domain and no servers.
    pub fn empty() -> (r: DnsConfig)
        ensures
            r@.domain.len() == 0,
            r@.servers.len() == 0,
    {
        DnsConfig { domain: String::new(), servers: Vec::new() }
    }
}

/// One managed network. `creation_time` is in milliseconds since the epoch;
/// `rules`, `capabilities` and `tags` hold one JSON text per entry, passed
/// through uninterpreted.
#[derive(Debug, Clone)]
pub struct ControllerNetwork {
    pub id: Option<String>,
    pub nwid: Option<String>,
    pub name: Option<String>,
    pub private: Option<bool>,
    pub enable_broadcast: Option<bool>,
    pub v4_assign_mode: Option<V4AssignMode>,
    pub v6_assign_mode: Option<V6AssignMode>,
    pub mtu: Option<u32>,
    pub multicast_limit: Option<u32>,
    pub creation_time: Option<i64>,
    pub revision: Option<u64>,
    pub routes: Vec<ControllerRoute>,
    pub ip_assignment_pools: Vec<IpAssignmentPool>,
    pub rules: Vec<String>,
    pub capabilities: Vec<String>,
    pub tags: Vec<String>,
    pub dns: DnsConfig,
}

pub struct NetworkView {
    pub id: Option<Seq<char>>,
    pub nwid: Option<Seq<char>>,
    pub name: Option<Seq<char>>,
    pub private: Option<bool>,
    pub enable_broadcast: Option<bool>,
    pub v4_assign_mode: Option<V4AssignMode>,
    pub v6_assign_mode: Option<V6AssignMode>,
    pub mtu: Option<u32>,
    pub multicast_limit: Option<u32>,
    pub creation_time: Option<i64>,
    pub revision: Option<u64>,
    pub routes: Seq<RouteView>,
    pub pools: Seq<PoolView>,
    pub rules: Seq<Seq<char>>,
    pub capabilities: Seq<Seq<char>>,
    pub tags: Seq<Seq<char>>,
    pub dns: DnsView,
}

pub open spec fn routes_view(v: Seq<ControllerRoute>) -> Seq<RouteView> {
    v.map_values(|r: ControllerRoute| r@)
}

pub open spec fn pools_view(v: Seq<IpAssignmentPool>) -> Seq<PoolView> {
    v.map_values(|p: IpAssignmentPool| p@)
}

impl View for ControllerNetwork {
    type V = NetworkView;

    open spec fn view(&self) -> NetworkView {
        NetworkView {
            id: opt_chars(self.id),
            nwid: opt_chars(self.nwid),
            name: opt_chars(self.name),
            private: self.private,
            enable_broadcast: self.enable_broadcast,
            v4_assign_mode: self.v4_assign_mode,
            v6_assign_mode: self.v6_assign_mode,
            mtu: self.mtu,
            multicast_limit: self.multicast_limit,
            creation_time: self.creation_time,
            revision: self.revision,
            routes: routes_view(self.routes@),
            pools: pools_view(self.ip_assignment_pools@),
            rules: strs_chars(self.rules@),
            capabilities: strs_chars(self.capabilities@),
            tags: strs_chars(self.tags@),
            dns: self.dns@,
        }
    }
}

fn routes_eq(a: &Vec<ControllerRoute>, b: &Vec<ControllerRoute>) -> (r: bool)
    ensures
        r == (routes_view(a@) == routes_view(b@)),
{
    if a.len() != b.len() {
        assert(routes_view(a@).len() != routes_view(b@).len());
        return false;
    }
    let mut i: usize = 0;
    while i < a.len()
        invariant
            a.len() == b.len(),
            i <= a.len(),
            forall|k: int| 0 <= k < i ==> a@[k]@ == b@[k]@,
        decreases a.len() - i,
    {
        if a[i] != b[i] {
            assert(routes_view(a@)[i as int] != routes_view(b@)[i as int]);
            return false;
        }
        i = i + 1;
    }
    assert(routes_view(a@) =~= routes_view(b@));
    true
}

fn pools_eq(a: &Vec<IpAssignmentPool>, b: &Vec<IpAssignmentPool>) -> (r: bool)
    ensures
        r == (pools_view(a@) == pools_view(b@)),
{
    if a.len() != b.len() {
        assert(pools_view(a@).len() != pools_view(b@).len());
        return false;
    }
    let mut i: usize = 0;
    while i < a.len()
        invariant
            a.len() == b.len(),
            i <= a.len(),
            forall|k: int| 0 <= k < i ==> a@[k]@ == b@[k]@,
        decreases a.len() - i,
    {
        if a[i] != b[i] {
            assert(pools_view(a@)[i as int] != pools_view(b@)[i as int]);
            return false;
        }
        i = i + 1;
    }
    assert(pools_view(a@) =~= pools_view(b@));
    true
}

impl PartialEq for ControllerNetwork {
    fn eq(&self, o: &ControllerNetwork) -> (r: bool) {
        opt_str_eq(&self.id, &o.id) && opt_str_eq(&self.nwid, &o.nwid) && opt_str_eq(
            &self.name,
            &o.name,
        ) && self.private == o.private && self.enable_broadcast == o.enable_broadcast
            && self.v4_assign_mode == o.v4_assign_mode && self.v6_assign_mode
            == o.v6_assign_mode && self.mtu == o.mtu && self.multicast_limit == o.multicast_limit
            && self.creation_time == o.creation_time && self.revision == o.revision && routes_eq(
            &self.routes,
            &o.routes,
        ) && pools_eq(&self.ip_assignment_pools, &o.ip_assignment_pools) && str_vec_eq(
            &self.rules,
            &o.rules,
        ) && str_vec_eq(&self.capabilities, &o.capabilities) && str_vec_eq(&self.tags, &o.tags)
            && self.dns == o.dns
    }
}

impl vstd::std_specs::cmp::PartialEqSpecImpl for ControllerNetwork {
    open spec fn obeys_eq_spec() -> bool {
        true
    }

    open spec fn eq_spec(&self, o: &ControllerNetwork) -> bool {
        self@ == o@
    }
}

/// How long ago a timestamp in milliseconds lies, seen at `now` seconds since
/// the epoch: `-` for an absent or non-positive one, then in minutes, hours or
/// days, rounded down. A timestamp in the future counts as just now.
pub open spec fn age_text(ts: Option<i64>, now: nat) -> Seq<char> {
    match ts {
        Some(ms) if ms > 0 => {
            let secs = ms / 1000;
            let elapsed: nat = if now >= secs { (now - secs) as nat } else { 0 };
            if elapsed < 60 {
                "just now"@
            } else if elapsed < 3600 {
                dec_text(elapsed / 60) + "m ago"@
            } else if elapsed < 86400 {
                dec_text(elapsed / 3600) + "h ago"@
            } else {
                dec_text(elapsed / 86400) + "d ago"@
            }
        },
        _ => "-"@,
    }
}

/// The age of the timestamp `ts` (milliseconds) at `now_secs`, as text.
pub fn format_epoch_ms(ts: Option<i64>, now_secs: u64) -> (r: String)
    ensures
        r@ == age_text(ts, now_secs as nat),
{
    match ts {
        Some(ms) if ms > 0 => {
            let secs = (ms / 1000) as u64;
            let elapsed: u64 = if now_secs >= secs {
                now_secs - secs
            } else {
                0
            };
            if elapsed < 60 {
                String::from_str("just now")
            } else {
                let mut out = String::new();
                if elapsed < 3600 {
                    push_decimal(&mut out, elapsed / 60);
                    out.append("m ago");
                } else if elapsed < 86400 {
                    push_decimal(&mut out, elapsed / 3600);
                    out.append("h ago");
                } else {
                    push_decimal(&mut out, elapsed / 86400);
                    out.append("d ago");
                }
                out
            }
        },
        _ => String::from_str("-"),
    }
}

/// The name shown for a network: its name, or a placeholder when absent or empty.
pub open spec fn network_name_text(name: Option<Seq<char>>) -> Seq<char> {
    match name {
        Some(n) if n.len() > 0 => n,
        _ => "Unnamed Network"@,
    }
}

/// The identifier of a network or member: the preferred field, else the
/// other one, else `unknown`.
pub open spec fn id_text(first: Option<Seq<char>>, second: Option<Seq<char>>) -> Seq<char> {
    match first {
        Some(a) => a,
        None => or_text(second, "unknown"@),
    }
}

fn id_or<'a>(first: &'a Option<String>, second: &'a Option<String>) -> (r: &'a str)
    ensures
        r@ == id_text(opt_chars(*first), opt_chars(*second)),
{
    match first {
        Some(a) => a.as_str(),
        None => text_or(second, "unknown"),
    }
}

impl ControllerNetwork {
    pub fn display_id(&self) -> (r: &str)
        ensures
            r@ == id_text(self@.nwid, self@.id),
    {
        id_or(&self.nwid, &self.id)
    }

    pub fn display_name(&self) -> (r: &str)
        ensures
            r@ == network_name_text(self@.name),
    {
        match &self.name {
            Some(n) => {
                if n.as_str().is_empty() {
                    "Unnamed Network"
                } else {
                    n.as_str()
                }
            },
            None => "Unnamed Network",
        }
    }

    /// A network counts as private unless it says otherwise.
    pub fn is_private(&self) -> (r: bool)
        ensures
            r == (self.private != Some(false)),
    {
        match self.private {
            Some(b) => b,
            None => true,
        }
    }

    pub fn display_type(&self) -> (r: &str)
        ensures
            r@ == (if self.private != Some(false) { "Private"@ } else { "Public"@ }),
    {
        if self.is_private() {
            "Private"
        } else {
            "Public"
        }
    }

    pub fn type_class(&self) -> (r: &str)
        ensures
            r@ == (if self.private != Some(false) { "type-private"@ } else { "type-public"@ }),
    {
        if self.is_private() {
            "type-private"
        } else {
            "type-public"
        }
    }

    /// The MTU as decimal text, the default 2800 when absent.
    pub fn _display_mtu(&self) -> (r: String)
        ensures
            r@ == dec_text(
                match self.mtu {
                    Some(m) => m as nat,
                    None => 2800,
                },
            ),
    {
        let mut out = String::new();
        match self.mtu {
            Some(m) => push_decimal(&mut out, m as u64),
            None => push_decimal(&mut out, 2800),
        }
        out
    }

    pub fn display_multicast_limit(&self) -> (r: u32)
        ensures
            r == (match self.multicast_limit {
                Some(m) => m,
                None => 32,
            }),
    {
        match self.multicast_limit {
            Some(m) => m,
            None => 32,
        }
    }

    pub fn v4_auto_assign(&self) -> (r: bool)
        ensures
            r == (match self.v4_assign_mode {
                Some(m) => m.zt,
                None => false,
            }),
    {
        match self.v4_assign_mode {
            Some(m) => m.zt,
            None => false,
        }
    }

    pub fn v6_rfc4193(&self) -> (r: bool)
        ensures
            r == (match self.v6_assign_mode {
                Some(m) => m.rfc4193,
                None => false,
            }),
    {
        match self.v6_assign_mode {
            Some(m) => m.rfc4193,
            None => false,
        }
    }

    pub fn v6_sixplane(&self) -> (r: bool)
        ensures
            r == (match self.v6_assign_mode {
                Some(m) => m.sixplane,
                None => false,
            }),
    {
        match self.v6_assign_mode {
            Some(m) => m.sixplane,
            None => false,
        }
    }

    pub fn v6_zt_auto_assign(&self) -> (r: bool)
        ensures
            r == (match self.v6_assign_mode {
                Some(m) => m.zt,
                None => false,
            }),
    {
        match self.v6_assign_mode {
            Some(m) => m.zt,
            None => false,
        }
    }

    pub fn broadcast_enabled(&self) -> (r: bool)
        ensures
            r == (self.enable_broadcast == Some(true)),
    {
        match self.enable_broadcast {
            Some(b) => b,
            None => false,
        }
    }

    /// The target of the first route, or `-`.
    pub fn display_subnet(&self) -> (r: &str)
        ensures
            r@ == (if self.routes@.len() > 0 {
                or_text(self@.routes[0].target, "-"@)
            } else {
                "-"@
            }),
    {
        if self.routes.len() > 0 {
            text_or(&self.routes[0].target, "-")
        } else {
            "-"
        }
    }

    /// The age of the network at `now_secs` seconds since the epoch.
    pub fn display_creation_time(&self, now_secs: u64) -> (r: String)
        ensures
            r@ == age_text(self.creation_time, now_secs as nat),
    {
        format_epoch_ms(self.creation_time, now_secs)
    }
}

/// One device's membership in a network. Times are in milliseconds since the
/// epoch.
#[derive(Debug, Clone)]
pub struct ControllerMember {
    pub id: Option<String>,
    pub address: Option<String>,
    pub nwid: Option<String>,
    pub authorized: Option<bool>,
    pub active_bridge: Option<bool>,
    pub identity: Option<String>,
    pub ip_assignments: Vec<String>,
    pub revision: Option<u64>,
    pub v_major: Option<i32>,
    pub v_minor: Option<i32>,
    pub v_rev: Option<i32>,
    pub v_proto: Option<i32>,
    pub no_auto_assign_ips: bool,
    pub creation_time: Option<i64>,
    pub last_authorized_time: Option<i64>,
    pub last_deauthorized_time: Option<i64>,
}

pub struct MemberView {
    pub id: Option<Seq<char>>,
    pub address: Option<Seq<char>>,
    pub nwid: Option<Seq<char>>,
    pub authorized: Option<bool>,
    pub active_bridge: Option<bool>,
    pub identity: Option<Seq<char>>,
    pub ip_assignments: Seq<Seq<char>>,
    pub revision: Option<u64>,
    pub v_major: Option<i32>,
    pub v_minor: Option<i32>,
    pub v_rev: Option<i32>,
    pub v_proto: Option<i32>,
    pub no_auto_assign_ips: bool,
    pub creation_time: Option<i64>,
    pub last_authorized_time: Option<i64>,
    pub last_deauthorized_time: Option<i64>,
}

impl View for ControllerMember {
    type V = MemberView;

    open spec fn view(&self) -> MemberView {
        MemberView {
            id: opt_chars(self.id),
            address: opt_chars(self.address),
            nwid: opt_chars(self.nwid),
            authorized: self.authorized,
            active_bridge: self.active_bridge,
            identity: opt_chars(self.identity),
            ip_assignments: strs_chars(self.ip_assignments@),
            revision: self.revision,
            v_major: self.v_major,
            v_minor: self.v_minor,
            v_rev: self.v_rev,
            v_proto: self.v_proto,
            no_auto_assign_ips: self.no_auto_assign_ips,
            creation_time: self.creation_time,
            last_authorized_time: self.last_authorized_time,
            last_deauthorized_time: self.last_deauthorized_time,
        }
    }
}

impl PartialEq for ControllerMember {
    fn eq(&self, o: &ControllerMember) -> (r: bool) {
        opt_str_eq(&self.id, &o.id) && opt_str_eq(&self.address, &o.address) && opt_str_eq(
            &self.nwid,
            &o.nwid,
        ) && self.authorized == o.authorized && self.active_bridge == o.active_bridge
            && opt_str_eq(&self.identity, &o.identity) && str_vec_eq(
            &self.ip_assignments,
            &o.ip_assignments,
        ) && self.revision == o.revision && self.v_major == o.v_major && self.v_minor
            == o.v_minor && self.v_rev == o.v_rev && self.v_proto == o.v_proto
            && self.no_auto_assign_ips == o.no_auto_assign_ips && self.creation_time
            == o.creation_time && self.last_authorized_time == o.last_authorized_time
            && self.last_deauthorized_time == o.last_deauthorized_time
    }
}

impl vstd::std_specs::cmp::PartialEqSpecImpl for ControllerMember {
    open spec fn obeys_eq_spec() -> bool {
        true
    }

    open spec fn eq_spec(&self, o: &ControllerMember) -> bool {
        self@ == o@
    }
}

/// The identifier a member is shown and sorted by: its address, else its id.
pub open spec fn member_key(m: MemberView) -> Seq<char> {
    id_text(m.address, m.id)
}

/// `major.minor.rev` when all three are present and not negative, else `-`.
pub open spec fn version_text(m: MemberView) -> Seq<char> {
    match (m.v_major, m.v_minor, m.v_rev) {
        (Some(a), Some(b), Some(c)) if a >= 0 && b >= 0 && c >= 0 => dec_text(a as nat) + "."@
            + dec_text(b as nat) + "."@ + dec_text(c as nat),
        _ => "-"@,
    }
}

/// Whether an address text holds a colon, which marks IPv6.
pub open spec fn has_colon(s: Seq<char>) -> bool {
    s.contains(':')
}

/// The assigned addresses, IPv4 ones first, each group in its own order.
pub open spec fn v4_first(ips: Seq<Seq<char>>) -> Seq<Seq<char>> {
    ips.filter(|s: Seq<char>| !has_colon(s)) + ips.filter(|s: Seq<char>| has_colon(s))
}

/// The strings of `ips` that hold a colon (`v6`) or that do not.
fn select_by_colon(ips: &Vec<String>, v6: bool) -> (r: Vec<String>)
    ensures
        strs_chars(r@) == strs_chars(ips@).filter(|s: Seq<char>| has_colon(s) == v6),
{
    let ghost p = |s: Seq<char>| has_colon(s) == v6;
    let mut out: Vec<String> = Vec::new();
    let mut i: usize = 0;
    while i < ips.len()
        invariant
            i <= ips.len(),
            p == (|s: Seq<char>| has_colon(s) == v6),
            strs_chars(out@) == strs_chars(ips@).take(i as int).filter(p),
        decreases ips.len() - i,
    {
        proof {
            let all = strs_chars(ips@);
            assert(all.take(i + 1) =~= all.take(i as int).push(all[i as int]));
            all.take(i as int).lemma_filter_push(all[i as int], p);
        }
        if str_contains_char(ips[i].as_str(), ':') == v6 {
            out.push(ips[i].clone());
            proof {
                assert(strs_chars(out@) =~= strs_chars(out@.drop_last()).push(ips@[i as int]@));
            }
        }
        i = i + 1;
    }
    assert(strs_chars(ips@).take(ips.len() as int) =~= strs_chars(ips@));
    out
}

impl ControllerMember {
    pub fn display_id(&self) -> (r: &str)
        ensures
            r@ == member_key(self@),
    {
        id_or(&self.address, &self.id)
    }

    pub fn is_authorized(&self) -> (r: bool)
        ensures
            r == (self.authorized == Some(true)),
    {
        match self.authorized {
            Some(b) => b,
            None => false,
        }
    }

    pub fn auth_class(&self) -> (r: &str)
        ensures
            r@ == (if self.authorized == Some(true) { "status-ok"@ } else { "status-denied"@ }),
    {
        if self.is_authorized() {
            "status-ok"
        } else {
            "status-denied"
        }
    }

    pub fn auth_label(&self) -> (r: &str)
        ensures
            r@ == (if self.authorized == Some(true) {
                "Authorized"@
            } else {
                "Not Authorized"@
            }),
    {
        if self.is_authorized() {
            "Authorized"
        } else {
            "Not Authorized"
        }
    }

    pub fn is_bridge(&self) -> (r: bool)
        ensures
            r == (self.active_bridge == Some(true)),
    {
        match self.active_bridge {
            Some(b) => b,
            None => false,
        }
    }

    pub fn display_version(&self) -> (r: String)
        ensures
            r@ == version_text(self@),
    {
        match (self.v_major, self.v_minor, self.v_rev) {
            (Some(a), Some(b), Some(c)) => {
                if a >= 0 && b >= 0 && c >= 0 {
                    let mut out = String::new();
                    push_decimal(&mut out, a as u64);
                    out.append(".");
                    push_decimal(&mut out, b as u64);
                    out.append(".");
                    push_decimal(&mut out, c as u64);
                    out
                } else {
                    String::from_str("-")
                }
            },
            _ => String::from_str("-"),
        }
    }

    pub fn display_creation_time(&self, now_secs: u64) -> (r: String)
        ensures
            r@ == age_text(self.creation_time, now_secs as nat),
    {
        format_epoch_ms(self.creation_time, now_secs)
    }

    pub fn display_last_authorized(&self, now_secs: u64) -> (r: String)
        ensures
            r@ == age_text(self.last_authorized_time, now_secs as nat),
    {
        format_epoch_ms(self.last_authorized_time, now_secs)
    }

    pub fn display_last_deauthorized(&self, now_secs: u64) -> (r: String)
        ensures
            r@ == age_text(self.last_deauthorized_time, now_secs as nat),
    {
        format_epoch_ms(self.last_deauthorized_time, now_secs)
    }

    /// The assigned addresses joined with `, `, IPv4 ones first.
    pub fn display_ip_assignments(&self) -> (r: String)
        ensures
            r@ == join(v4_first(self@.ip_assignments), ", "@),
    {
        let mut ordered = select_by_colon(&self.ip_assignments, false);
        let mut v6 = select_by_colon(&self.ip_assignments, true);
        let ghost a = ordered@;
        let ghost b = v6@;
        ordered.append(&mut v6);
        proof {
            assert(strs_chars(ordered@) =~= strs_chars(a) + strs_chars(b));
            let all = strs_chars(self.ip_assignments@);
            assert((|s: Seq<char>| has_colon(s) == false) =~= (|s: Seq<char>| !has_colon(s)));
            assert((|s: Seq<char>| has_colon(s) == true) =~= (|s: Seq<char>| has_colon(s)));
        }
        join_strs(&ordered, ", ")
    }
}

} // verus!
