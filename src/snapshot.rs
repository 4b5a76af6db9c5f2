//! The snapshot of remote state that one polling cycle assembles, and the
//! structural comparisons between two snapshots.
use vstd::prelude::*;
use crate::models::{
    ControllerMember, ControllerNetwork, MemberView, NetworkView, NodeStatus, StatusView, member_key,
};
use crate::text::{opt_chars, opt_str_eq, lex_lt, lemma_lex_irreflexive, lemma_lex_transitive, lemma_lex_trichotomy, str_less};

verus! {

pub open spec fn members_view(v: Seq<ControllerMember>) -> Seq<MemberView> {
    v.map_values(|m: ControllerMember| m@)
}

/// One network's member list under its network identifier.
#[derive(Debug, Clone)]
pub struct MemberEntry {
    pub nwid: String,
    pub members: Vec<ControllerMember>,
}

impl View for MemberEntry {
    type V = (Seq<char>, Seq<MemberView>);

    open spec fn view(&self) -> (Seq<char>, Seq<MemberView>) {
        (self.nwid@, members_view(self.members@))
    }
}

/// Whether the keys of an association list rise strictly.
pub open spec fn keys_ascending<V>(s: Seq<(Seq<char>, V)>) -> bool {
    forall|i: int, j: int| 0 <= i < j < s.len() ==> lex_lt(#[trigger] s[i].0, #[trigger] s[j].0)
}

/// The association list `s`, ordered by key, with `k` bound to `v`: an
/// existing binding of `k` is replaced, otherwise one is added in key order.
pub open spec fn put<V>(s: Seq<(Seq<char>, V)>, k: Seq<char>, v: V) -> Seq<(Seq<char>, V)>
    decreases s.len(),
{
    if s.len() == 0 {
        seq![(k, v)]
    } else if s[0].0 == k {
        s.update(0, (k, v))
    } else if lex_lt(k, s[0].0) {
        seq![(k, v)] + s
    } else {
        seq![s[0]] + put(s.drop_first(), k, v)
    }
}

pub(crate) proof fn lemma_put_prefix<V>(s: Seq<(Seq<char>, V)>, k: Seq<char>, v: V, i: int)
    requires
        0 <= i <= s.len(),
        forall|j: int| 0 <= j < i ==> lex_lt(#[trigger] s[j].0, k),
    ensures
        put(s, k, v) == s.take(i) + put(s.skip(i), k, v),
    decreases i,
{
    if i == 0 {
        assert(s.skip(0) =~= s);
        assert(s.take(0) + put(s, k, v) =~= put(s, k, v));
    } else {
        lemma_lex_irreflexive(k);
        lemma_lex_trichotomy(s[0].0, k);
        assert(lex_lt(s[0].0, k));
        let rest = s.drop_first();
        assert forall|j: int| 0 <= j < i - 1 implies lex_lt(#[trigger] rest[j].0, k) by {
            assert(rest[j] == s[j + 1]);
        }
        lemma_put_prefix(rest, k, v, i - 1);
        assert(rest.skip(i - 1) =~= s.skip(i));
        assert(seq![s[0]] + rest.take(i - 1) =~= s.take(i));
    }
}

/// The member lists of a snapshot, keyed by network identifier, kept in
/// ascending key order so that two maps with the same bindings are equal
/// entry by entry.
#[derive(Debug, Clone)]
pub struct MemberMap {
    pub entries: Vec<MemberEntry>,
}

impl View for MemberMap {
    type V = Seq<(Seq<char>, Seq<MemberView>)>;

    open spec fn view(&self) -> Seq<(Seq<char>, Seq<MemberView>)> {
        self.entries@.map_values(|e: MemberEntry| e@)
    }
}

/// The value bound to `k`, the first binding that names it.
pub open spec fn lookup<V>(s: Seq<(Seq<char>, V)>, k: Seq<char>) -> Option<V>
    decreases s.len(),
{
    if s.len() == 0 {
        None
    } else if s[0].0 == k {
        Some(s[0].1)
    } else {
        lookup(s.drop_first(), k)
    }
}

impl MemberMap {
    /// The member list of network `nwid`, if the map has one.
    pub fn get(&self, nwid: &str) -> (r: Option<&Vec<ControllerMember>>)
        ensures
            match r {
                Some(v) => lookup(self@, nwid@) == Some(members_view(v@)),
                None => lookup(self@, nwid@) is None,
            },
    {
        let ghost s = self@;
        let mut i: usize = 0;
        assert(s.skip(0) =~= s);
        while i < self.entries.len()
            invariant
                s == self@,
                i <= s.len(),
                lookup(s, nwid@) == lookup(s.skip(i as int), nwid@),
            decreases s.len() - i,
        {
            proof {
                assert(s.skip(i as int).drop_first() =~= s.skip(i + 1));
                assert(s.skip(i as int)[0] == s[i as int]);
                assert(s[i as int] == self.entries@[i as int]@);
            }
            if crate::text::str_eq(self.entries[i].nwid.as_str(), nwid) {
                return Some(&self.entries[i].members);
            }
            i = i + 1;
        }
        None
    }

    pub open spec fn wf(&self) -> bool {
        keys_ascending(self@)
    }

    pub fn new() -> (r: MemberMap)
        ensures
            r.wf(),
            r@.len() == 0,
    {
        MemberMap { entries: Vec::new() }
    }

    pub fn len(&self) -> (r: usize)
        ensures
            r == self@.len(),
    {
        self.entries.len()
    }

    /// Binds `nwid` to `members`, replacing an earlier binding of it.
    pub fn insert(&mut self, nwid: String, members: Vec<ControllerMember>)
        requires
            old(self).wf(),
        ensures
            final(self).wf(),
            final(self)@ == put(old(self)@, nwid@, members_view(members@)),
    {
        let ghost s = self@;
        let ghost k = nwid@;
        let ghost v = members_view(members@);
        let n = self.entries.len();
        let mut i: usize = 0;
        loop
            invariant
                s == self@,
                k == nwid@,
                self.wf(),
                n == self.entries.len(),
                i <= n,
                forall|j: int| 0 <= j < i ==> lex_lt(#[trigger] s[j].0, k),
            ensures
                i < n ==> !lex_lt(s[i as int].0, k),
            decreases n - i,
        {
            if i == n {
                break;
            }
            assert(s[i as int].0 == self.entries@[i as int].nwid@);
            let less = str_less(self.entries[i].nwid.as_str(), nwid.as_str());
            if !less {
                break;
            }
            i = i + 1;
        }
        proof {
            lemma_put_prefix(s, k, v, i as int);
        }
        let entry = MemberEntry { nwid, members };
        if i < n && self.entries[i].nwid == entry.nwid {
            self.entries.set(i, entry);
            proof {
                assert(s.skip(i as int)[0] == s[i as int]);
                assert(s.take(i as int) + s.skip(i as int).update(0, (k, v)) =~= s.update(
                    i as int,
                    (k, v),
                ));
                assert(self@ =~= s.update(i as int, (k, v)));
            }
        } else {
            proof {
                if i < n {
                    assert(s[i as int].0 == self.entries@[i as int].nwid@);
                    lemma_lex_trichotomy(s[i as int].0, k);
                    assert(lex_lt(k, s[i as int].0));
                } else {
                    assert(s.skip(i as int).len() == 0);
                }
                assert(s.take(i as int) + put(s.skip(i as int), k, v) =~= s.insert(i as int, (k, v)));
                assert forall|a: int, b: int|
                    0 <= a < b < s.len() + 1 implies lex_lt(
                    #[trigger] s.insert(i as int, (k, v))[a].0,
                    #[trigger] s.insert(i as int, (k, v))[b].0,
                ) by {
                    let t = s.insert(i as int, (k, v));
                    if b < i {
                    } else if b == i {
                    } else if a < i {
                        lemma_lex_transitive(s[a].0, k, s[i as int].0);
                        if b - 1 > i {
                            lemma_lex_transitive(s[a].0, s[i as int].0, s[b - 1].0);
                        }
                    } else if a == i {
                        if b - 1 > i {
                            lemma_lex_transitive(k, s[i as int].0, s[b - 1].0);
                        }
                    } else {
                    }
                }
            }
            self.entries.insert(i, entry);
            proof {
                assert(self@ =~= s.insert(i as int, (k, v)));
            }
        }
    }
}

/// The members whose fetch succeeded, in the order of the fetches.
pub open spec fn fetched(results: Seq<Result<ControllerMember, String>>) -> Seq<ControllerMember>
    decreases results.len(),
{
    if results.len() == 0 {
        Seq::empty()
    } else {
        let before = fetched(results.drop_last());
        match results.last() {
            Ok(m) => before.push(m),
            Err(_) => before,
        }
    }
}

/// The number of fetches that failed.
pub open spec fn failures(results: Seq<Result<ControllerMember, String>>) -> nat
    decreases results.len(),
{
    if results.len() == 0 {
        0
    } else {
        failures(results.drop_last()) + if results.last() is Err { 1nat } else { 0nat }
    }
}

/// Member identifiers never decrease along the list.
pub open spec fn sorted_by_key(s: Seq<MemberView>) -> bool {
    forall|i: int, j: int|
        0 <= i < j < s.len() ==> !lex_lt(member_key(#[trigger] s[j]), member_key(#[trigger] s[i]))
}

/// Member identifiers rise strictly along the list.
pub open spec fn strictly_sorted_by_key(s: Seq<MemberView>) -> bool {
    forall|i: int, j: int|
        0 <= i < j < s.len() ==> lex_lt(member_key(#[trigger] s[i]), member_key(#[trigger] s[j]))
}

/// No two members of the list share an identifier.
pub open spec fn distinct_keys(s: Seq<ControllerMember>) -> bool {
    forall|i: int, j: int|
        0 <= i < j < s.len() ==> member_key((#[trigger] s[i])@) != member_key((#[trigger] s[j])@)
}

pub proof fn lemma_fetched_append(a: Seq<Result<ControllerMember, String>>, b: Seq<Result<ControllerMember, String>>)
    ensures
        fetched(a + b) == fetched(a) + fetched(b),
    decreases b.len(),
{
    if b.len() == 0 {
        assert(a + b =~= a);
        assert(fetched(a) + fetched(b) =~= fetched(a));
    } else {
        lemma_fetched_append(a, b.drop_last());
        assert((a + b).drop_last() =~= a + b.drop_last());
        assert((a + b).last() == b.last());
        match b.last() {
            Ok(m) => {
                assert(fetched(a) + fetched(b.drop_last()).push(m) =~= (fetched(a) + fetched(
                    b.drop_last(),
                )).push(m));
            },
            Err(_) => {},
        }
    }
}

/// The fetched members and the failures make up all the fetches.
pub proof fn lemma_fetched_len(results: Seq<Result<ControllerMember, String>>)
    ensures
        fetched(results).len() + failures(results) == results.len(),
    decreases results.len(),
{
    if results.len() > 0 {
        lemma_fetched_len(results.drop_last());
    }
}

proof fn lemma_multiset_insert<A>(s: Seq<A>, p: int, x: A)
    requires
        0 <= p <= s.len(),
    ensures
        s.insert(p, x).to_multiset() =~= s.to_multiset().insert(x),
{
    broadcast use vstd::seq_lib::group_to_multiset_ensures;

    let t = s.insert(p, x);
    assert(t.remove(p) =~= s);
    assert(t[p] == x);
    assert(t.contains(x));
}

/// Inserting a member after every one whose identifier is not greater, and
/// before the first whose identifier is greater, keeps a list ordered.
proof fn lemma_sorted_insert(s: Seq<MemberView>, p: int, x: MemberView)
    requires
        sorted_by_key(s),
        0 <= p <= s.len(),
        forall|j: int| 0 <= j < p ==> !lex_lt(member_key(x), member_key(#[trigger] s[j])),
        p < s.len() ==> lex_lt(member_key(x), member_key(s[p])),
    ensures
        sorted_by_key(s.insert(p, x)),
{
    let t = s.insert(p, x);
    let kx = member_key(x);
    s.insert_ensures(p, x);
    assert forall|a: int, b: int| 0 <= a < b < t.len() implies !lex_lt(
        member_key(#[trigger] t[b]),
        member_key(#[trigger] t[a]),
    ) by {
        let ka = member_key(t[a]);
        let kb = member_key(t[b]);
        if b < p {
            assert(t[a] == s[a] && t[b] == s[b]);
        } else if b == p {
            assert(t[a] == s[a] && t[b] == x);
        } else {
            assert(t[b] == s[b - 1]);
            let kp = member_key(s[p]);
            lemma_lex_trichotomy(kx, kp);
            lemma_lex_irreflexive(kp);
            assert(!lex_lt(kb, kp));
            lemma_lex_trichotomy(kb, kp);
            if a < p {
                assert(t[a] == s[a]);
                lemma_lex_trichotomy(kx, ka);
                if lex_lt(kb, ka) {
                    if kb =~= kp {
                        lemma_lex_transitive(kx, kb, ka);
                    } else {
                        lemma_lex_transitive(kx, kp, kb);
                        lemma_lex_transitive(kx, kb, ka);
                    }
                }
            } else if a == p {
                assert(t[a] == x);
                if lex_lt(kb, kx) && !(kb =~= kp) {
                    lemma_lex_transitive(kb, kx, kp);
                }
            } else {
                assert(t[a] == s[a - 1]);
            }
        }
    }
}

/// Keeps the members whose fetch succeeded and orders them by identifier,
/// so that two fetches of the same members compare equal whatever order
/// the fetches completed in.
pub fn collect_members(results: Vec<Result<ControllerMember, String>>) -> (r: Vec<ControllerMember>)
    ensures
        r@.to_multiset() == fetched(results@).to_multiset(),
        sorted_by_key(members_view(r@)),
        distinct_keys(fetched(results@)) ==> strictly_sorted_by_key(members_view(r@)),
{
    broadcast use vstd::seq_lib::group_to_multiset_ensures;

    let ghost orig = results@;
    let mut rest = results;
    let mut out: Vec<ControllerMember> = Vec::new();
    let ghost mut i: int = 0;
    proof {
        assert(orig.skip(0) =~= orig);
        assert(orig.take(0).len() == 0);
        assert(fetched(orig.take(0)).len() == 0);
        assert(out@.to_multiset() =~= fetched(orig.take(0)).to_multiset());
    }
    while rest.len() > 0
        invariant
            0 <= i <= orig.len(),
            rest@ == orig.skip(i),
            out@.to_multiset() == fetched(orig.take(i)).to_multiset(),
            sorted_by_key(members_view(out@)),
            distinct_keys(fetched(orig)) ==> strictly_sorted_by_key(members_view(out@)),
        decreases rest.len(),
    {
        let item = rest.remove(0);
        proof {
            assert(orig[i] == item);
            assert(orig.take(i + 1).drop_last() =~= orig.take(i));
            assert(orig.take(i + 1).last() == item);
            assert(rest@ =~= orig.skip(i + 1));
        }
        match item {
            Ok(m) => {
                let ghost km = member_key(m@);
                let n = out.len();
                let mut p: usize = 0;
                loop
                    invariant
                        n == out.len(),
                        km == member_key(m@),
                        p <= n,
                        forall|j: int| 0 <= j < p ==> !lex_lt(km, member_key(#[trigger] out@[j]@)),
                    ensures
                        p < n ==> lex_lt(km, member_key(out@[p as int]@)),
                    decreases n - p,
                {
                    if p == n {
                        break;
                    }
                    if str_less(m.display_id(), out[p].display_id()) {
                        break;
                    }
                    p = p + 1;
                }
                proof {
                    let s = members_view(out@);
                    let t = s.insert(p as int, m@);
                    s.insert_ensures(p as int, m@);
                    assert(members_view(out@.insert(p as int, m)) =~= t);
                    assert(fetched(orig.take(i + 1)) == fetched(orig.take(i)).push(m));
                    assert forall|j: int| 0 <= j < p implies !lex_lt(km, member_key(#[trigger] s[j])) by {
                        assert(s[j] == out@[j]@);
                    }
                    if p < n {
                        assert(s[p as int] == out@[p as int]@);
                    }
                    lemma_sorted_insert(s, p as int, m@);
                    if distinct_keys(fetched(orig)) {
                        lemma_fetched_append(orig.take(i + 1), orig.skip(i + 1));
                        assert(orig.take(i + 1) + orig.skip(i + 1) =~= orig);
                        let f = fetched(orig.take(i + 1));
                        assert forall|a: int| 0 <= a < s.len() implies member_key(#[trigger] s[a]) != km by {
                            out@.to_multiset_ensures();
                            assert(out@.contains(out@[a]));
                            assert(out@.to_multiset().count(out@[a]) > 0);
                            fetched(orig.take(i)).to_multiset_ensures();
                            assert(fetched(orig.take(i)).contains(out@[a]));
                            let w = choose|w: int| 0 <= w < fetched(orig.take(i)).len() && fetched(orig.take(i))[w] == out@[a];
                            assert(f[w] == out@[a]);
                            assert(f[f.len() - 1] == m);
                            assert(fetched(orig)[w] == f[w]);
                            assert(fetched(orig)[f.len() - 1] == f[f.len() - 1]);
                        }
                        assert forall|a: int, b: int| 0 <= a < b < t.len() implies lex_lt(
                            member_key(#[trigger] t[a]),
                            member_key(#[trigger] t[b]),
                        ) by {
                            lemma_lex_trichotomy(member_key(t[a]), member_key(t[b]));
                            if a == p {
                                assert(member_key(t[b]) != km);
                            } else if b == p {
                                assert(member_key(t[a]) != km);
                            } else {
                                let a2 = if a < p { a } else { a - 1 };
                                let b2 = if b < p { b } else { b - 1 };
                                assert(lex_lt(member_key(s[a2]), member_key(s[b2])));
                            }
                        }
                    }
                }
                let ghost before = out@;
                out.insert(p, m);
                proof {
                    lemma_multiset_insert(before, p as int, m);
                    assert(out@ == before.insert(p as int, m));
                    assert(fetched(orig.take(i + 1)) == fetched(orig.take(i)).push(m));
                    fetched(orig.take(i)).to_multiset_ensures();
                    assert(out@.to_multiset() =~= fetched(orig.take(i + 1)).to_multiset());
                }
            },
            Err(_) => {
                assert(fetched(orig.take(i + 1)) == fetched(orig.take(i)));
            },
        }
        proof {
            i = i + 1;
        }
    }
    proof {
        assert(orig.take(orig.len() as int) =~= orig);
    }
    out
}

/// What the fetch of one network hands back: its identifier, the outcome of
/// fetching its body, and its members.
#[derive(Debug)]
pub struct NetworkFetch {
    pub nwid: String,
    pub network: Result<ControllerNetwork, String>,
    pub members: Vec<ControllerMember>,
}

impl NetworkFetch {
    /// Completes one network's fetch. `member_results` holds one outcome per
    /// member fetch, or is `None` when the member listing itself failed, in
    /// which case the network has no members this cycle.
    pub fn new(
        nwid: String,
        network: Result<ControllerNetwork, String>,
        member_results: Option<Vec<Result<ControllerMember, String>>>,
    ) -> (r: NetworkFetch)
        ensures
            r.nwid == nwid,
            r.network == network,
            match member_results {
                Some(v) => r.members@.to_multiset() == fetched(v@).to_multiset() && sorted_by_key(
                    members_view(r.members@),
                ) && (distinct_keys(fetched(v@)) ==> strictly_sorted_by_key(
                    members_view(r.members@),
                )),
                None => r.members@.len() == 0,
            },
    {
        let members = match member_results {
            Some(v) => collect_members(v),
            None => Vec::new(),
        };
        NetworkFetch { nwid, network, members }
    }
}

/// The networks whose body was fetched, in the order of the fetches.
pub open spec fn networks_of(fetches: Seq<Option<NetworkFetch>>) -> Seq<ControllerNetwork>
    decreases fetches.len(),
{
    if fetches.len() == 0 {
        Seq::empty()
    } else {
        let before = networks_of(fetches.drop_last());
        match fetches.last() {
            Some(f) => match f.network {
                Ok(n) => before.push(n),
                Err(_) => before,
            },
            None => before,
        }
    }
}

/// The member map built from every fetch that completed, each binding its
/// network identifier to its member list, a later one replacing an earlier.
pub open spec fn members_of(fetches: Seq<Option<NetworkFetch>>) -> Seq<(Seq<char>, Seq<MemberView>)>
    decreases fetches.len(),
{
    if fetches.len() == 0 {
        Seq::empty()
    } else {
        let before = members_of(fetches.drop_last());
        match fetches.last() {
            Some(f) => put(before, f.nwid@, members_view(f.members@)),
            None => before,
        }
    }
}

/// The snapshot of remote state: the node status, the networks in the
/// order the remote listed them, the member lists by network, when it was
/// assembled (milliseconds since the epoch), and the error of the status
/// call when it failed.
#[derive(Debug, Clone)]
pub struct ZtState {
    pub status: Option<NodeStatus>,
    pub controller_networks: Vec<ControllerNetwork>,
    pub controller_members: MemberMap,
    pub last_updated: Option<u64>,
    pub error: Option<String>,
}

pub open spec fn status_view(s: Option<NodeStatus>) -> Option<StatusView> {
    match s {
        Some(n) => Some(n@),
        None => None,
    }
}

pub open spec fn networks_view(v: Seq<ControllerNetwork>) -> Seq<NetworkView> {
    v.map_values(|n: ControllerNetwork| n@)
}

impl ZtState {
    pub open spec fn wf(&self) -> bool {
        self.controller_members.wf()
    }

    /// The snapshot before any cycle has run: nothing known, no error.
    pub fn new() -> (r: ZtState)
        ensures
            r.wf(),
            r.status is None,
            r.controller_networks@.len() == 0,
            r.controller_members@.len() == 0,
            r.last_updated is None,
            r.error is None,
    {
        ZtState {
            status: None,
            controller_networks: Vec::new(),
            controller_members: MemberMap::new(),
            last_updated: None,
            error: None,
        }
    }
}

/// Assembles the candidate snapshot of one cycle from the outcome of the
/// status call and of each network's fetch (`None` for a fetch that did
/// not complete), stamped with `now_ms`. A failed status call leaves the
/// status absent and records its error; a network whose body could not be
/// fetched is left out of the network list, while its members still count.
pub fn poll_once(
    status: Result<NodeStatus, String>,
    fetches: Vec<Option<NetworkFetch>>,
    now_ms: u64,
) -> (r: ZtState)
    ensures
        r.wf(),
        r.status == (match status {
            Ok(s) => Some(s),
            Err(_) => None::<NodeStatus>,
        }),
        r.error == (match status {
            Ok(_) => None::<String>,
            Err(e) => Some(e),
        }),
        r.controller_networks@ == networks_of(fetches@),
        r.controller_members@ == members_of(fetches@),
        r.last_updated == Some(now_ms),
{
    let (st, error) = match status {
        Ok(s) => (Some(s), None),
        Err(e) => (None, Some(e)),
    };
    let ghost orig = fetches@;
    let mut rest = fetches;
    let mut networks: Vec<ControllerNetwork> = Vec::new();
    let mut members = MemberMap::new();
    let ghost mut i: int = 0;
    proof {
        assert(orig.skip(0) =~= orig);
        assert(orig.take(0) =~= Seq::<Option<NetworkFetch>>::empty());
    }
    while rest.len() > 0
        invariant
            0 <= i <= orig.len(),
            rest@ == orig.skip(i),
            members.wf(),
            networks@ == networks_of(orig.take(i)),
            members@ == members_of(orig.take(i)),
        decreases rest.len(),
    {
        let item = rest.remove(0);
        proof {
            assert(orig[i] == item);
            assert(orig.take(i + 1).drop_last() =~= orig.take(i));
            assert(orig.take(i + 1).last() == item);
            assert(rest@ =~= orig.skip(i + 1));
        }
        match item {
            Some(f) => {
                let NetworkFetch { nwid, network, members: list } = f;
                match network {
                    Ok(n) => networks.push(n),
                    Err(_) => {},
                }
                members.insert(nwid, list);
            },
            None => {},
        }
        proof {
            i = i + 1;
        }
    }
    proof {
        assert(orig.take(orig.len() as int) =~= orig);
    }
    ZtState {
        status: st,
        controller_networks: networks,
        controller_members: members,
        last_updated: Some(now_ms),
        error,
    }
}

/// When exactly one of the member fetches fails, the stored list holds one
/// member fewer than there were fetches.
pub proof fn lemma_one_failed_fetch(
    results: Seq<Result<ControllerMember, String>>,
    stored: Seq<ControllerMember>,
)
    requires
        failures(results) == 1,
        stored.to_multiset() == fetched(results).to_multiset(),
    ensures
        stored.len() == results.len() - 1,
{
    broadcast use vstd::seq_lib::group_to_multiset_ensures;

    lemma_fetched_len(results);
    assert(stored.len() == stored.to_multiset().len());
    assert(fetched(results).len() == fetched(results).to_multiset().len());
}

proof fn lemma_first_is_least(s: Seq<ControllerMember>, x: ControllerMember)
    requires
        strictly_sorted_by_key(members_view(s)),
        s.contains(x),
    ensures
        s.len() > 0,
        x == s[0] || lex_lt(member_key(s[0]@), member_key(x@)),
{
    let j = choose|j: int| 0 <= j < s.len() && s[j] == x;
    if j > 0 {
        assert(members_view(s)[0] == s[0]@);
        assert(members_view(s)[j] == s[j]@);
    }
}

/// Two lists of members that hold the same members, each strictly ordered
/// by identifier, are the same list: the stored order does not depend on
/// the order in which the fetches completed.
pub proof fn lemma_member_order_irrelevant(a: Seq<ControllerMember>, b: Seq<ControllerMember>)
    requires
        a.to_multiset() == b.to_multiset(),
        strictly_sorted_by_key(members_view(a)),
        strictly_sorted_by_key(members_view(b)),
    ensures
        a == b,
    decreases a.len(),
{
    broadcast use vstd::seq_lib::group_to_multiset_ensures;

    assert(a.len() == a.to_multiset().len());
    assert(b.len() == b.to_multiset().len());
    if a.len() == 0 {
        assert(a =~= b);
    } else {
        assert(a.contains(a[0]));
        assert(b.to_multiset().count(a[0]) > 0);
        assert(b.contains(a[0]));
        assert(b.contains(b[0]));
        assert(a.to_multiset().count(b[0]) > 0);
        assert(a.contains(b[0]));
        lemma_first_is_least(b, a[0]);
        lemma_first_is_least(a, b[0]);
        if a[0] != b[0] {
            lemma_lex_trichotomy(member_key(a[0]@), member_key(b[0]@));
        }
        assert(a[0] == b[0]);
        let ra = a.drop_first();
        let rb = b.drop_first();
        assert(a.remove(0) =~= ra);
        assert(b.remove(0) =~= rb);
        assert(ra.to_multiset() =~= b.to_multiset().remove(b[0]));
        assert forall|i: int, j: int| 0 <= i < j < ra.len() implies lex_lt(
            member_key(#[trigger] members_view(ra)[i]),
            member_key(#[trigger] members_view(ra)[j]),
        ) by {
            assert(members_view(ra)[i] == members_view(a)[i + 1]);
            assert(members_view(ra)[j] == members_view(a)[j + 1]);
        }
        assert forall|i: int, j: int| 0 <= i < j < rb.len() implies lex_lt(
            member_key(#[trigger] members_view(rb)[i]),
            member_key(#[trigger] members_view(rb)[j]),
        ) by {
            assert(members_view(rb)[i] == members_view(b)[i + 1]);
            assert(members_view(rb)[j] == members_view(b)[j + 1]);
        }
        lemma_member_order_irrelevant(ra, rb);
        assert(a =~= seq![a[0]] + ra);
        assert(b =~= seq![b[0]] + rb);
    }
}

/// What a network fetch reports, as values: the identifier, the network
/// body when it was fetched, and the member list.
pub open spec fn fetch_view(f: Option<NetworkFetch>) -> Option<(Seq<char>, Option<NetworkView>, Seq<MemberView>)> {
    match f {
        Some(x) => Some(
            (
                x.nwid@,
                match x.network {
                    Ok(n) => Some(n@),
                    Err(_) => None,
                },
                members_view(x.members@),
            ),
        ),
        None => None,
    }
}

/// Fetches that report the same values assemble into the same network list
/// and the same member map.
pub proof fn lemma_same_fetches_same_snapshot(f1: Seq<Option<NetworkFetch>>, f2: Seq<Option<NetworkFetch>>)
    requires
        f1.len() == f2.len(),
        forall|i: int| 0 <= i < f1.len() ==> fetch_view(#[trigger] f1[i]) == fetch_view(f2[i]),
    ensures
        networks_view(networks_of(f1)) == networks_view(networks_of(f2)),
        members_of(f1) == members_of(f2),
    decreases f1.len(),
{
    if f1.len() > 0 {
        let d1 = f1.drop_last();
        let d2 = f2.drop_last();
        assert forall|i: int| 0 <= i < d1.len() implies fetch_view(#[trigger] d1[i]) == fetch_view(d2[i]) by {
            assert(d1[i] == f1[i]);
        }
        lemma_same_fetches_same_snapshot(d1, d2);
        assert(fetch_view(f1[f1.len() - 1]) == fetch_view(f2[f2.len() - 1]));
        let a = networks_of(d1);
        let b = networks_of(d2);
        match (f1.last(), f2.last()) {
            (Some(x), Some(y)) => match (x.network, y.network) {
                (Ok(n), Ok(m)) => {
                    assert(networks_view(a.push(n)) =~= networks_view(a).push(n@));
                    assert(networks_view(b.push(m)) =~= networks_view(b).push(m@));
                },
                _ => {},
            },
            _ => {},
        }
    }
}

} // verus!
