use vstd::prelude::*;
use crate::command::FrontendEvent;
use crate::registry::{added, addrs_view, closed, without, ListenerRegistry, RegistryModel};

verus! {

/// An event from the network engine, as far as the built-in handling reads it.
pub enum InboundEvent {
    /// Listener `listener` is now bound to `address`.
    NewListenAddr { listener: u64, address: Vec<u8> },
    /// Listener `listener` stopped listening on `addresses`.
    ListenerClosed { listener: u64, addresses: Vec<Vec<u8>> },
    /// A request from a peer; `unanswered` holds when no manager took its
    /// response channel.
    InboundRequest { unanswered: bool },
    /// Any other event; only managers react to it.
    Other,
}

/// The abstract form of an inbound event.
pub enum EventModel {
    NewListenAddr(u64, Seq<u8>),
    ListenerClosed(u64, Seq<Seq<u8>>),
    InboundRequest(bool),
    Other,
}

impl View for InboundEvent {
    type V = EventModel;

    open spec fn view(&self) -> EventModel {
        match self {
            InboundEvent::NewListenAddr { listener, address } => EventModel::NewListenAddr(
                *listener,
                address@,
            ),
            InboundEvent::ListenerClosed { listener, addresses } => EventModel::ListenerClosed(
                *listener,
                addrs_view(addresses@),
            ),
            InboundEvent::InboundRequest { unanswered } => EventModel::InboundRequest(*unanswered),
            InboundEvent::Other => EventModel::Other,
        }
    }
}

/// A "listen" announcement: a listener and its full current address set.
pub struct ListenNote {
    pub listener: u64,
    pub addresses: Seq<Seq<u8>>,
}

/// Whether `n` is the announcement `note`.
pub open spec fn announces(n: Option<FrontendEvent>, note: Option<ListenNote>) -> bool {
    match note {
        None => n is None,
        Some(l) => match n {
            Some(FrontendEvent::Listen { listener, addresses }) => listener == l.listener
                && addrs_view(addresses@) == l.addresses,
            _ => false,
        },
    }
}

/// The registry after the built-in handling of `e`.
pub open spec fn registry_after(m: RegistryModel, e: EventModel) -> RegistryModel {
    match e {
        EventModel::NewListenAddr(l, a) => added(m, l, a),
        EventModel::ListenerClosed(l, rm) => closed(m, l, rm),
        _ => m,
    }
}

/// The announcement that the built-in handling of `e` makes.
pub open spec fn note_after(m: RegistryModel, e: EventModel) -> Option<ListenNote> {
    match e {
        EventModel::NewListenAddr(l, a) => Some(ListenNote { listener: l, addresses: added(m, l, a)[l] }),
        EventModel::ListenerClosed(l, rm) => if m.contains_key(l) {
            Some(ListenNote { listener: l, addresses: without(m[l], rm) })
        } else {
            None
        },
        _ => None,
    }
}

/// The registry and the announcements after the built-in handling of every
/// event of `es`, in order.
pub open spec fn run_events(m: RegistryModel, es: Seq<EventModel>) -> (RegistryModel, Seq<ListenNote>)
    decreases es.len(),
{
    if es.len() == 0 {
        (m, seq![])
    } else {
        let (m1, ns) = run_events(m, es.drop_last());
        let e = es.last();
        match note_after(m1, e) {
            Some(n) => (registry_after(m1, e), ns.push(n)),
            None => (registry_after(m1, e), ns),
        }
    }
}

/// What the built-in handling of one event decided.
pub struct BuiltinOutcome {
    /// The announcement to relay to the shell, if any.
    pub notification: Option<FrontendEvent>,
    /// A request that no manager answered is left unserved.
    pub unserved_request: bool,
}

/// The built-in handling of `e`: keeps the listener registry and announces
/// each change of a listener's address set.
pub fn handle_builtin(listeners: &mut ListenerRegistry, e: InboundEvent) -> (r: BuiltinOutcome)
    requires
        old(listeners).wf(),
    ensures
        final(listeners).wf(),
        final(listeners)@ == registry_after(old(listeners)@, e@),
        announces(r.notification, note_after(old(listeners)@, e@)),
        r.unserved_request == (e@ == EventModel::InboundRequest(true)),
{
    match e {
        InboundEvent::NewListenAddr { listener, address } => {
            let addresses = listeners.add_address(listener, address);
            BuiltinOutcome {
                notification: Some(FrontendEvent::Listen { listener, addresses }),
                unserved_request: false,
            }
        },
        InboundEvent::ListenerClosed { listener, addresses } => {
            let rest = listeners.close(listener, &addresses);
            match rest {
                Some(left) => BuiltinOutcome {
                    notification: Some(FrontendEvent::Listen { listener, addresses: left }),
                    unserved_request: false,
                },
                None => BuiltinOutcome { notification: None, unserved_request: false },
            }
        },
        InboundEvent::InboundRequest { unanswered } => BuiltinOutcome {
            notification: None,
            unserved_request: unanswered,
        },
        InboundEvent::Other => BuiltinOutcome { notification: None, unserved_request: false },
    }
}

/// The positions of the managers that failed, in increasing order.
pub fn failed_managers(succeeded: &Vec<bool>) -> (r: Vec<usize>)
    ensures
        forall|i: int| 0 <= i < succeeded@.len() ==> (!succeeded@[i] <==> r@.contains(i as usize)),
        forall|j: int| 0 <= j < r@.len() ==> r@[j] < succeeded@.len(),
        forall|a: int, b: int| 0 <= a < b < r@.len() ==> r@[a] < r@[b],
{
    let mut r: Vec<usize> = Vec::new();
    let mut i: usize = 0;
    while i < succeeded.len()
        invariant
            i <= succeeded@.len(),
            forall|k: int| 0 <= k < i ==> (!succeeded@[k] <==> r@.contains(k as usize)),
            forall|j: int| 0 <= j < r@.len() ==> r@[j] < i,
            forall|a: int, b: int| 0 <= a < b < r@.len() ==> r@[a] < r@[b],
        decreases succeeded@.len() - i,
    {
        let ghost prev = r@;
        if !succeeded[i] {
            r.push(i);
            assert(r@[r@.len() - 1] == i);
        }
        assert forall|k: int| 0 <= k < i + 1 implies (!succeeded@[k] <==> r@.contains(k as usize)) by {
            if k < i {
                if prev.contains(k as usize) {
                    let j = choose|j: int| 0 <= j < prev.len() && prev[j] == k as usize;
                    assert(r@[j] == k as usize);
                }
                if r@.contains(k as usize) {
                    let j = choose|j: int| 0 <= j < r@.len() && r@[j] == k as usize;
                    if j < prev.len() {
                        assert(prev[j] == k as usize);
                    }
                }
            } else {
                if !succeeded@[k] {
                    assert(r@[r@.len() - 1] == k as usize);
                } else {
                    assert(r@ == prev);
                }
            }
        }
        i = i + 1;
    }
    r
}

/// What the router does with one inbound event once every manager has
/// handled it.
pub struct InboundOutcome {
    /// The managers whose failure is to be reported, by position.
    pub failed: Vec<usize>,
    pub builtin: BuiltinOutcome,
}

/// One step of the inbound router: the managers' results are reported, and
/// the built-in handling runs whatever they were.
pub fn inbound_step(listeners: &mut ListenerRegistry, e: InboundEvent, succeeded: &Vec<bool>) -> (r:
    InboundOutcome)
    requires
        old(listeners).wf(),
    ensures
        final(listeners).wf(),
        final(listeners)@ == registry_after(old(listeners)@, e@),
        announces(r.builtin.notification, note_after(old(listeners)@, e@)),
        r.builtin.unserved_request == (e@ == EventModel::InboundRequest(true)),
        forall|i: int|
            0 <= i < succeeded@.len() ==> (!succeeded@[i] <==> r.failed@.contains(i as usize)),
        forall|j: int| 0 <= j < r.failed@.len() ==> r.failed@[j] < succeeded@.len(),
        forall|a: int, b: int| 0 <= a < b < r.failed@.len() ==> r.failed@[a] < r.failed@[b],
{
    let failed = failed_managers(succeeded);
    let builtin = handle_builtin(listeners, e);
    InboundOutcome { failed, builtin }
}

} // verus!
