//! The decisions of the synchronisation loop: which axes changed between
//! the live snapshot and a cycle's candidate, which notifications follow,
//! the total replacement of the live snapshot, and the coalescing trigger
//! that requests an extra cycle.
use vstd::prelude::*;
use crate::models::{ControllerMember, ControllerNetwork};
use crate::snapshot::{
    MemberMap, ZtState, members_view, networks_view, status_view,
};
use crate::sse::SseEvent;
use crate::text::opt_chars;

verus! {

/// Which of the three axes differ between two snapshots.
#[derive(Debug, Clone, Copy, PartialEq, Eq, Structural)]
pub struct Changes {
    pub status: bool,
    pub networks: bool,
    pub members: bool,
}

/// The status axis: the node status or the cycle's error.
pub open spec fn status_differs(old: ZtState, new: ZtState) -> bool {
    status_view(old.status) != status_view(new.status) || opt_chars(old.error) != opt_chars(
        new.error,
    )
}

pub open spec fn changes_between(old: ZtState, new: ZtState) -> Changes {
    Changes {
        status: status_differs(old, new),
        networks: networks_view(old.controller_networks@) != networks_view(
            new.controller_networks@,
        ),
        members: old.controller_members@ != new.controller_members@,
    }
}

/// The notifications for a set of changes, one per changed axis, in the
/// order status, networks, members.
pub open spec fn events_of(c: Changes) -> Seq<SseEvent> {
    (if c.status { seq![SseEvent::StatusChanged] } else { Seq::empty() }) + (if c.networks {
        seq![SseEvent::ControllerNetworksChanged]
    } else {
        Seq::empty()
    }) + (if c.members { seq![SseEvent::ControllerMembersChanged] } else { Seq::empty() })
}

fn networks_eq(a: &Vec<ControllerNetwork>, b: &Vec<ControllerNetwork>) -> (r: bool)
    ensures
        r == (networks_view(a@) == networks_view(b@)),
{
    if a.len() != b.len() {
        assert(networks_view(a@).len() != networks_view(b@).len());
        return false;
    }
    let mut i: usize = 0;
    while i < a.len()
        invariant
            a.len() == b.len(),
            i <= a.len(),
            forall|k: int| 0 <= k < i ==> a@[k]@ == b@[k]@,
        decreases a.len() - i,
    {
        if a[i] != b[i] {
            assert(networks_view(a@)[i as int] != networks_view(b@)[i as int]);
            return false;
        }
        i = i + 1;
    }
    assert(networks_view(a@) =~= networks_view(b@));
    true
}

fn members_eq(a: &Vec<ControllerMember>, b: &Vec<ControllerMember>) -> (r: bool)
    ensures
        r == (members_view(a@) == members_view(b@)),
{
    if a.len() != b.len() {
        assert(members_view(a@).len() != members_view(b@).len());
        return false;
    }
    let mut i: usize = 0;
    while i < a.len()
        invariant
            a.len() == b.len(),
            i <= a.len(),
            forall|k: int| 0 <= k < i ==> a@[k]@ == b@[k]@,
        decreases a.len() - i,
    {
        if a[i] != b[i] {
            assert(members_view(a@)[i as int] != members_view(b@)[i as int]);
            return false;
        }
        i = i + 1;
    }
    assert(members_view(a@) =~= members_view(b@));
    true
}

fn member_maps_eq(a: &MemberMap, b: &MemberMap) -> (r: bool)
    ensures
        r == (a@ == b@),
{
    if a.entries.len() != b.entries.len() {
        assert(a@.len() != b@.len());
        return false;
    }
    let mut i: usize = 0;
    while i < a.entries.len()
        invariant
            a.entries.len() == b.entries.len(),
            i <= a.entries.len(),
            forall|k: int| 0 <= k < i ==> a@[k] == b@[k],
        decreases a.entries.len() - i,
    {
        let same = a.entries[i].nwid == b.entries[i].nwid && members_eq(
            &a.entries[i].members,
            &b.entries[i].members,
        );
        assert(a@[i as int] == a.entries@[i as int]@);
        assert(b@[i as int] == b.entries@[i as int]@);
        if !same {
            return false;
        }
        i = i + 1;
    }
    assert(a@ =~= b@);
    true
}

fn opt_status_eq(a: &ZtState, b: &ZtState) -> (r: bool)
    ensures
        r == (status_view(a.status) == status_view(b.status)),
{
    match (&a.status, &b.status) {
        (Some(x), Some(y)) => x == y,
        (None, None) => true,
        _ => false,
    }
}

/// Compares the live snapshot with a candidate along the three axes.
pub fn detect_changes(old: &ZtState, new: &ZtState) -> (r: Changes)
    ensures
        r == changes_between(*old, *new),
{
    let status = !opt_status_eq(old, new) || !crate::text::opt_str_eq(&old.error, &new.error);
    let networks = !networks_eq(&old.controller_networks, &new.controller_networks);
    let members = !member_maps_eq(&old.controller_members, &new.controller_members);
    Changes { status, networks, members }
}

/// The notifications to publish for `c`.
pub fn events_for(c: Changes) -> (r: Vec<SseEvent>)
    ensures
        r@ == events_of(c),
{
    let mut out: Vec<SseEvent> = Vec::new();
    if c.status {
        out.push(SseEvent::StatusChanged);
    }
    if c.networks {
        out.push(SseEvent::ControllerNetworksChanged);
    }
    if c.members {
        out.push(SseEvent::ControllerMembersChanged);
    }
    assert(out@ =~= events_of(c));
    out
}

/// The live snapshot. Replacement is total: the candidate takes the place
/// of the whole previous value, which is dropped.
#[derive(Debug)]
pub struct SnapshotCache {
    pub current: ZtState,
}

impl SnapshotCache {
    pub fn new() -> (r: SnapshotCache)
        ensures
            r.current.wf(),
            r.current.status is None,
            r.current.controller_networks@.len() == 0,
            r.current.controller_members@.len() == 0,
            r.current.last_updated is None,
            r.current.error is None,
    {
        SnapshotCache { current: ZtState::new() }
    }

    /// The snapshot as it stands.
    pub fn read(&self) -> (r: &ZtState)
        ensures
            *r == self.current,
    {
        &self.current
    }

    /// Ends a cycle: compares the candidate with the live snapshot, puts the
    /// candidate in its place, and returns the notifications to publish.
    pub fn apply_cycle(&mut self, candidate: ZtState) -> (r: Vec<SseEvent>)
        ensures
            final(self).current == candidate,
            r@ == events_of(changes_between(old(self).current, candidate)),
    {
        let c = detect_changes(&self.current, &candidate);
        self.current = candidate;
        events_for(c)
    }
}

/// The slot after `n` requests, starting from `pending`.
pub open spec fn after_requests(pending: bool, n: nat) -> bool
    decreases n,
{
    if n == 0 {
        pending
    } else {
        requested(after_requests(pending, (n - 1) as nat))
    }
}

/// The slot after one request: set, whatever it was.
pub open spec fn requested(pending: bool) -> bool {
    true
}

/// What a take reports, and the slot after it.
pub open spec fn taken(pending: bool) -> (bool, bool) {
    (pending, false)
}

/// A single-slot request for an extra cycle: setting it when already set
/// changes nothing, and taking it clears it.
#[derive(Debug)]
pub struct PollTrigger {
    pending: bool,
}

impl View for PollTrigger {
    type V = bool;

    closed spec fn view(&self) -> bool {
        self.pending
    }
}

impl PollTrigger {
    pub fn new() -> (r: PollTrigger)
        ensures
            r@ == false,
    {
        PollTrigger { pending: false }
    }

    /// Requests an extra cycle.
    pub fn notify(&mut self)
        ensures
            final(self)@ == requested(old(self)@),
    {
        self.pending = true;
    }

    /// Whether an extra cycle was requested since the last take; clears
    /// the request.
    pub fn take(&mut self) -> (r: bool)
        ensures
            (r, final(self)@) == taken(old(self)@),
    {
        let r = self.pending;
        self.pending = false;
        r
    }
}

/// A candidate that matches the live snapshot on all three axes, as a cycle
/// over an unchanged remote state assembles, publishes no notification.
pub proof fn lemma_unchanged_cycle_is_silent(live: ZtState, candidate: ZtState)
    requires
        status_view(live.status) == status_view(candidate.status),
        opt_chars(live.error) == opt_chars(candidate.error),
        networks_view(live.controller_networks@) == networks_view(candidate.controller_networks@),
        live.controller_members@ == candidate.controller_members@,
    ensures
        events_of(changes_between(live, candidate)).len() == 0,
{
    let c = changes_between(live, candidate);
    assert(!c.status && !c.networks && !c.members);
    assert(events_of(c) =~= Seq::<SseEvent>::empty());
}

/// A notification is published for an axis exactly when that axis differs.
pub proof fn lemma_events_match_changes(live: ZtState, candidate: ZtState)
    ensures
        events_of(changes_between(live, candidate)).contains(SseEvent::StatusChanged)
            == status_differs(live, candidate),
        events_of(changes_between(live, candidate)).contains(SseEvent::ControllerNetworksChanged)
            == (networks_view(live.controller_networks@) != networks_view(
            candidate.controller_networks@,
        )),
        events_of(changes_between(live, candidate)).contains(SseEvent::ControllerMembersChanged)
            == (live.controller_members@ != candidate.controller_members@),
{
    let c = changes_between(live, candidate);
    let e = events_of(c);
    let s1: Seq<SseEvent> = if c.status { seq![SseEvent::StatusChanged] } else { Seq::empty() };
    let s2: Seq<SseEvent> = if c.networks { seq![SseEvent::ControllerNetworksChanged] } else { Seq::empty() };
    let s3: Seq<SseEvent> = if c.members { seq![SseEvent::ControllerMembersChanged] } else { Seq::empty() };
    assert(e == s1 + s2 + s3);
    if c.status {
        assert(e[0] == SseEvent::StatusChanged);
    }
    if c.networks {
        assert(e[s1.len() as int] == SseEvent::ControllerNetworksChanged);
    }
    if c.members {
        assert(e[(s1.len() + s2.len()) as int] == SseEvent::ControllerMembersChanged);
    }
    assert forall|k: int| 0 <= k < e.len() implies (e[k] == SseEvent::StatusChanged ==> c.status)
        && (e[k] == SseEvent::ControllerNetworksChanged ==> c.networks) && (e[k]
        == SseEvent::ControllerMembersChanged ==> c.members) by {
        if k < s1.len() {
            assert(e[k] == s1[k]);
        } else if k < s1.len() + s2.len() {
            assert(e[k] == s2[k - s1.len()]);
        } else {
            assert(e[k] == s3[k - s1.len() - s2.len()]);
        }
    }
}

/// Requests made before the loop takes the trigger coalesce: after any
/// number of them, at least one, the first take reports one extra cycle
/// and a second take reports none.
pub proof fn lemma_trigger_coalesces(t: PollTrigger, requests: nat)
    requires
        requests >= 1,
    ensures
        taken(after_requests(t@, requests)) == (true, false),
        taken(taken(after_requests(t@, requests)).1) == (false, false),
    decreases requests,
{
    if requests > 1 {
        lemma_trigger_coalesces(t, (requests - 1) as nat);
    }
}

} // verus!
