//! The change notifications published after a cycle, one per axis.
use vstd::prelude::*;

verus! {

/// Which part of the snapshot changed. Notifications carry nothing else:
/// consumers read the snapshot itself.
#[derive(Debug, Clone, Copy, PartialEq, Eq, Structural)]
pub enum SseEvent {
    StatusChanged,
    ControllerNetworksChanged,
    ControllerMembersChanged,
}

pub open spec fn event_name_of(e: SseEvent) -> Seq<char> {
    match e {
        SseEvent::StatusChanged => "status-changed"@,
        SseEvent::ControllerNetworksChanged => "ctrl-networks-changed"@,
        SseEvent::ControllerMembersChanged => "ctrl-members-changed"@,
    }
}

impl SseEvent {
    /// The name the event is sent under to browsers.
    pub fn event_name(&self) -> (r: &'static str)
        ensures
            r@ == event_name_of(*self),
    {
        match self {
            SseEvent::StatusChanged => "status-changed",
            SseEvent::ControllerNetworksChanged => "ctrl-networks-changed",
            SseEvent::ControllerMembersChanged => "ctrl-members-changed",
        }
    }
}

/// What a subscriber forwards for one receive from the channel: the name of
/// a delivered event, nothing when it fell behind and events were dropped
/// (the next cycle's notification, or a read of the snapshot, catches up).
pub fn forwarded_event_name(received: Option<SseEvent>) -> (r: Option<&'static str>)
    ensures
        match received {
            Some(e) => r.is_some() && r.unwrap()@ == event_name_of(e),
            None => r.is_none(),
        },
{
    match received {
        Some(e) => Some(e.event_name()),
        None => None,
    }
}

} // verus!
