use vstd::prelude::*;
use crate::inbound::{run_events, EventModel, ListenNote};
use crate::registry::{without, RegistryModel};
use crate::command::with_new_group;
use crate::state::{joined, with_member, with_message, without_member, ChatModel, MessageModel};

verus! {

/// The events of listener `l` reporting each address of `addrs` in turn.
pub open spec fn address_reports(l: u64, addrs: Seq<Seq<u8>>) -> Seq<EventModel> {
    addrs.map_values(|a: Seq<u8>| EventModel::NewListenAddr(l, a))
}

proof fn lemma_without_covered(s: Seq<Seq<u8>>, rm: Seq<Seq<u8>>)
    requires
        forall|i: int| 0 <= i < s.len() ==> rm.contains(#[trigger] s[i]),
    ensures
        without(s, rm).len() == 0,
    decreases s.len(),
{
    if s.len() > 0 {
        assert(rm.contains(s[s.len() - 1]));
        lemma_without_covered(s.drop_last(), rm);
    }
}

proof fn lemma_reports(m: RegistryModel, l: u64, addrs: Seq<Seq<u8>>, k: int)
    requires
        !m.contains_key(l),
        0 <= k <= addrs.len(),
    ensures
        ({
            let (mk, ns) = run_events(m, address_reports(l, addrs.take(k)));
            &&& ns.len() == k
            &&& forall|i: int| 0 <= i < ns.len() ==> (#[trigger] ns[i]).listener == l
            &&& k == 0 ==> !mk.contains_key(l)
            &&& k > 0 ==> mk.contains_key(l) && forall|i: int|
                0 <= i < mk[l].len() ==> addrs.contains(#[trigger] mk[l][i])
        }),
    decreases k,
{
    if k == 0 {
        assert(address_reports(l, addrs.take(0)) =~= Seq::<EventModel>::empty());
    } else {
        lemma_reports(m, l, addrs, k - 1);
        let es = address_reports(l, addrs.take(k));
        assert(es.drop_last() =~= address_reports(l, addrs.take(k - 1)));
        assert(es.last() == EventModel::NewListenAddr(l, addrs[k - 1]));
        let (m1, ns1) = run_events(m, es.drop_last());
        let (mk, ns) = run_events(m, es);
        assert(addrs.contains(addrs[k - 1]));
        assert(ns =~= ns1.push(ListenNote { listener: l, addresses: mk[l] }));
        assert forall|i: int| 0 <= i < mk[l].len() implies addrs.contains(#[trigger] mk[l][i]) by {
            if m1.contains_key(l) && i < m1[l].len() {
                assert(mk[l][i] == m1[l][i]);
            }
        }
    }
}

/// A listener that reports one or more addresses and then has all of them
/// closed is gone from the registry; one announcement was made per event,
/// all of them for that listener, and the last one carries no address.
pub proof fn listener_lifecycle(m: RegistryModel, l: u64, addrs: Seq<Seq<u8>>)
    requires
        !m.contains_key(l),
        addrs.len() > 0,
    ensures
        ({
            let (m2, ns) = run_events(
                m,
                address_reports(l, addrs).push(EventModel::ListenerClosed(l, addrs)),
            );
            &&& !m2.contains_key(l)
            &&& ns.len() == addrs.len() + 1
            &&& forall|i: int| 0 <= i < ns.len() ==> (#[trigger] ns[i]).listener == l
            &&& ns.last().addresses.len() == 0
        }),
{
    let n = addrs.len() as int;
    lemma_reports(m, l, addrs, n);
    assert(addrs.take(n) =~= addrs);
    let es = address_reports(l, addrs).push(EventModel::ListenerClosed(l, addrs));
    assert(es.drop_last() =~= address_reports(l, addrs));
    let (m1, ns1) = run_events(m, address_reports(l, addrs));
    lemma_without_covered(m1[l], addrs);
    let (m2, ns) = run_events(m, es);
    assert(ns =~= ns1.push(ListenNote { listener: l, addresses: without(m1[l], addrs) }));
}

/// After the local peer leaves an existing group, the group still exists,
/// so subscribing again succeeds, and it makes the peer a member once more.
pub proof fn resubscribe_after_leave(s: ChatModel, g: u64, p: Seq<u8>)
    requires
        s.groups.contains_key(g),
    ensures
        without_member(s, g, p).groups.contains_key(g),
        with_member(without_member(s, g, p), g, p).groups[g].members.contains(p),
        with_member(without_member(s, g, p), g, p).groups[g].info == s.groups[g].info,
{
    let s1 = without_member(s, g, p);
    let ms = s1.groups[g].members;
    if !ms.contains(p) {
        assert(joined(ms, p)[ms.len() as int] == p);
    }
}

/// Creating a group adds exactly its identifier, which no earlier group
/// has, to the identifiers in use.
pub proof fn new_group_takes_fresh_id(
    s: ChatModel,
    g: u64,
    info: Seq<u8>,
    me: Seq<u8>,
    profile: Seq<u8>,
)
    requires
        !s.groups.contains_key(g),
    ensures
        forall|k: u64| #[trigger] s.groups.contains_key(k) ==> k != g,
        with_new_group(s, g, info, me, profile).groups.dom() == s.groups.dom().insert(g),
{
    assert(with_new_group(s, g, info, me, profile).groups.dom() =~= s.groups.dom().insert(g));
}

/// Subscribing, unsubscribing and publishing on an existing group leave the
/// identifiers in use as they were: an identifier once handed to a group
/// stays taken, so no later creation can return it again.
pub proof fn group_ids_stay_taken(s: ChatModel, g: u64, p: Seq<u8>, m: MessageModel)
    requires
        s.groups.contains_key(g),
    ensures
        with_member(s, g, p).groups.dom() == s.groups.dom(),
        without_member(s, g, p).groups.dom() == s.groups.dom(),
        with_message(s, g, m).groups.dom() == s.groups.dom(),
{
    assert(with_member(s, g, p).groups.dom() =~= s.groups.dom());
    assert(without_member(s, g, p).groups.dom() =~= s.groups.dom());
    assert(with_message(s, g, m).groups.dom() =~= s.groups.dom());
}

} // verus!
