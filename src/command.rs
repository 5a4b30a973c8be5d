use vstd::prelude::*;
use crate::address::{multiaddr_encoding, parse_multiaddr, trailing_peer, trailing_peer_of};
use crate::registry::ListenerRegistry;
use crate::state::{
    with_member, with_message, without_member, ChatModel, ChatState, GroupMessage, GroupModel,
    GroupSummary, MessageModel,
};

verus! {

/// Why a command failed.
pub enum CommandError {
    /// The network engine reported a failure, described by the message.
    Network(String),
    /// The group named by the command does not exist.
    GroupNotFound,
    /// A dial address does not end in a peer identity.
    InvalidAddress,
    /// A new group was to be registered under an identifier already in use.
    GroupIdTaken,
    /// The operation is not offered by this core.
    Unsupported,
}

/// Whether `r` is the network failure described by `msg`.
pub open spec fn is_network_error(r: CommandError, msg: Seq<char>) -> bool {
    match r {
        CommandError::Network(m) => m@ == msg,
        _ => false,
    }
}

/// An event for the user-facing shell.
pub enum FrontendEvent {
    Listen { listener: u64, addresses: Vec<Vec<u8>> },
    Message { group: u64, message: GroupMessage },
    Subscribed { group: u64, peer: Vec<u8> },
    Unsubscribed { group: u64, peer: Vec<u8> },
    GroupUpdate { group: u64, info: Vec<u8> },
    UserUpdate { peer: Vec<u8>, info: Vec<u8> },
    BackendError { error: String },
}

/// Whether `n` announces that group `g` now has the metadata `info`.
pub open spec fn is_group_update(n: Option<FrontendEvent>, g: u64, info: Seq<u8>) -> bool {
    match n {
        Some(FrontendEvent::GroupUpdate { group, info: i }) => group == g && i@ == info,
        _ => false,
    }
}

/// The address that a listener is started on when none is given: every
/// IPv4 interface, a port chosen by the system.
pub const WILDCARD_LISTEN_ADDR: &'static str = "/ip4/0.0.0.0/tcp/0";

/// The reply owed for a network outcome that carries no value.
pub fn network_reply(net: Result<(), String>) -> (r: Result<(), CommandError>)
    ensures
        net is Ok <==> r is Ok,
        net is Err ==> is_network_error(r->Err_0, net->Err_0@),
{
    match net {
        Ok(()) => Ok(()),
        Err(e) => Err(CommandError::Network(e)),
    }
}

/// The peer to dial for `addr`: the identity its last component names.
pub fn dial_target(addr: &Vec<u8>) -> (r: Result<Vec<u8>, CommandError>)
    ensures
        match trailing_peer_of(addr@) {
            Some(p) => r is Ok && r->Ok_0@ == p,
            None => r matches Err(CommandError::InvalidAddress),
        },
{
    match trailing_peer(addr) {
        Some(p) => Ok(p),
        None => Err(CommandError::InvalidAddress),
    }
}

/// The address to start listening on: the one requested, else the wildcard.
pub fn listen_target(requested: Option<Vec<u8>>) -> (r: Result<Vec<u8>, CommandError>)
    ensures
        requested is Some ==> r is Ok && r->Ok_0@ == requested->Some_0@,
        requested is None ==> match multiaddr_encoding(WILDCARD_LISTEN_ADDR@) {
            Some(b) => r is Ok && r->Ok_0@ == b,
            None => r matches Err(CommandError::InvalidAddress),
        },
{
    match requested {
        Some(a) => Ok(a),
        None => match parse_multiaddr(WILDCARD_LISTEN_ADDR) {
            Some(b) => Ok(b),
            None => Err(CommandError::InvalidAddress),
        },
    }
}

/// The listeners to stop: every one in the registry.
pub fn stop_listen_targets(listeners: &ListenerRegistry) -> (r: Vec<u64>)
    requires
        listeners.wf(),
    ensures
        r@.to_set() == listeners@.dom(),
        r@.no_duplicates(),
{
    listeners.ids()
}

/// Every group with its metadata.
pub fn groups(state: &ChatState) -> (r: Vec<GroupSummary>)
    requires
        state.wf(),
    ensures
        forall|k: u64|
            #[trigger] state@.groups.contains_key(k) ==> exists|j: int|
                0 <= j < r@.len() && r@[j].id == k,
        forall|j: int|
            #![trigger r@[j]]
            0 <= j < r@.len() ==> state@.groups.contains_key(r@[j].id) && r@[j].info@
                == state@.groups[r@[j].id].info,
        forall|a: int, b: int|
            0 <= a < r@.len() && 0 <= b < r@.len() && a != b ==> r@[a].id != r@[b].id,
{
    state.group_list()
}

/// Whether a command on group `g` may go to the network: only if it exists.
pub fn check_group(state: &ChatState, g: u64) -> (r: Result<(), CommandError>)
    requires
        state.wf(),
    ensures
        r is Ok <==> state@.groups.contains_key(g),
        r is Err ==> r matches Err(CommandError::GroupNotFound),
{
    if state.has_group(g) {
        Ok(())
    } else {
        Err(CommandError::GroupNotFound)
    }
}

/// Completes a subscription of the local peer `me` to group `g` once the
/// network subscription reported `net`. On success the membership is
/// recorded and a group update is announced; otherwise nothing changes.
/// The group's existence is checked again here, so a group that vanished
/// while the network call was pending is reported as not found.
pub fn finish_subscribe(state: &mut ChatState, g: u64, me: &Vec<u8>, net: Result<(), String>) -> (r: (
    Result<(), CommandError>,
    Option<FrontendEvent>,
))
    requires
        old(state).wf(),
    ensures
        final(state).wf(),
        !old(state)@.groups.contains_key(g) ==> (r.0 matches Err(CommandError::GroupNotFound))
            && r.1 is None && final(state)@ == old(state)@,
        old(state)@.groups.contains_key(g) && net is Err ==> is_network_error(
            r.0->Err_0,
            net->Err_0@,
        ) && r.0 is Err && r.1 is None && final(state)@ == old(state)@,
        old(state)@.groups.contains_key(g) && net is Ok ==> r.0 is Ok && final(state)@
            == with_member(old(state)@, g, me@) && is_group_update(
            r.1,
            g,
            old(state)@.groups[g].info,
        ),
{
    if !state.has_group(g) {
        return (Err(CommandError::GroupNotFound), None);
    }
    match net {
        Err(e) => (Err(CommandError::Network(e)), None),
        Ok(()) => {
            state.join(g, me);
            let info = state.group_info(g);
            (Ok(()), Some(FrontendEvent::GroupUpdate { group: g, info }))
        },
    }
}

/// Completes an unsubscription of the local peer `me` from group `g` once
/// the network reported `net`. Only a success removes the membership; a
/// group that does not exist (or no longer does) is reported as not found.
pub fn finish_unsubscribe(state: &mut ChatState, g: u64, me: &Vec<u8>, net: Result<(), String>) -> (r:
    Result<(), CommandError>)
    requires
        old(state).wf(),
    ensures
        final(state).wf(),
        !old(state)@.groups.contains_key(g) ==> (r matches Err(CommandError::GroupNotFound))
            && final(state)@ == old(state)@,
        old(state)@.groups.contains_key(g) && net is Err ==> r is Err && is_network_error(
            r->Err_0,
            net->Err_0@,
        ) && final(state)@ == old(state)@,
        old(state)@.groups.contains_key(g) && net is Ok ==> r is Ok && final(state)@
            == without_member(old(state)@, g, me@),
{
    if !state.has_group(g) {
        return Err(CommandError::GroupNotFound);
    }
    match net {
        Err(e) => Err(CommandError::Network(e)),
        Ok(()) => {
            state.leave(g, me);
            Ok(())
        },
    }
}

/// The message to publish on group `g`: `content` stamped with the local
/// peer `me` and the time `now`. Fails if the group does not exist.
pub fn prepare_publish(state: &ChatState, g: u64, content: Vec<u8>, me: &Vec<u8>, now: u64) -> (r:
    Result<GroupMessage, CommandError>)
    requires
        state.wf(),
    ensures
        !state@.groups.contains_key(g) ==> r matches Err(CommandError::GroupNotFound),
        state@.groups.contains_key(g) ==> r is Ok && r->Ok_0@ == (MessageModel {
            content: content@,
            author: me@,
            created: now,
        }),
{
    if !state.has_group(g) {
        return Err(CommandError::GroupNotFound);
    }
    Ok(GroupMessage::new(content, me.clone(), now))
}

/// Completes a publication of `m` on group `g` once the network reported
/// `net`: only a success appends the message to the group's history.
pub fn finish_publish(state: &mut ChatState, g: u64, m: GroupMessage, net: Result<(), String>) -> (r:
    Result<GroupMessage, CommandError>)
    requires
        old(state).wf(),
    ensures
        final(state).wf(),
        !old(state)@.groups.contains_key(g) ==> (r matches Err(CommandError::GroupNotFound))
            && final(state)@ == old(state)@,
        old(state)@.groups.contains_key(g) && net is Err ==> r is Err && is_network_error(
            r->Err_0,
            net->Err_0@,
        ) && final(state)@ == old(state)@,
        old(state)@.groups.contains_key(g) && net is Ok ==> r is Ok && r->Ok_0@ == m@
            && final(state)@ == with_message(old(state)@, g, m@),
{
    if !state.has_group(g) {
        return Err(CommandError::GroupNotFound);
    }
    match net {
        Err(e) => Err(CommandError::Network(e)),
        Ok(()) => {
            let out = m.copy();
            state.append_message(g, m);
            Ok(out)
        },
    }
}

/// Relies on std's `RandomState::new` and `BuildHasher::hash_one`: each
/// `RandomState` is seeded with random keys, so hashing a fixed value with a
/// new one draws an unpredictable 64-bit number. Nothing is promised of it.
#[verifier::external_body]
fn draw_group_id() -> (r: u64) {
    std::hash::BuildHasher::hash_one(&std::collections::hash_map::RandomState::new(), 0u8)
}

/// Accepts `candidate` as the identifier of a new group unless a group
/// already has it.
pub fn prepare_new_group(state: &ChatState, candidate: u64) -> (r: Result<u64, CommandError>)
    requires
        state.wf(),
    ensures
        state@.groups.contains_key(candidate) ==> (r matches Err(CommandError::GroupIdTaken)),
        !state@.groups.contains_key(candidate) ==> r == Ok::<u64, CommandError>(candidate),
{
    if state.has_group(candidate) {
        Err(CommandError::GroupIdTaken)
    } else {
        Ok(candidate)
    }
}

/// A randomly drawn identifier for a new group, not used by any group yet;
/// fails only if the draw hits an identifier in use.
pub fn new_group_id(state: &ChatState) -> (r: Result<u64, CommandError>)
    requires
        state.wf(),
    ensures
        r is Ok ==> !state@.groups.contains_key(r->Ok_0),
        r is Err ==> (r matches Err(CommandError::GroupIdTaken)),
{
    prepare_new_group(state, draw_group_id())
}

/// The aggregate after the local peer `me`, with profile `profile`, created
/// group `g` with metadata `info`.
pub open spec fn with_new_group(s: ChatModel, g: u64, info: Seq<u8>, me: Seq<u8>, profile: Seq<u8>) -> ChatModel {
    ChatModel {
        groups: s.groups.insert(g, GroupModel { info, members: seq![me], messages: seq![] }),
        users: if s.users.contains_key(me) {
            s.users
        } else {
            s.users.insert(me, profile)
        },
        ..s
    }
}

/// Completes the creation of group `g` once the network subscription to its
/// topic reported `net`. On success the local peer's profile is registered
/// if missing, the group is recorded with `me` as its member, and a group
/// update is announced; on failure nothing is recorded.
pub fn finish_new_group(
    state: &mut ChatState,
    g: u64,
    info: Vec<u8>,
    me: &Vec<u8>,
    profile: Vec<u8>,
    net: Result<(), String>,
) -> (r: (Result<u64, CommandError>, Option<FrontendEvent>))
    requires
        old(state).wf(),
    ensures
        final(state).wf(),
        old(state)@.groups.contains_key(g) ==> (r.0 matches Err(
            CommandError::GroupIdTaken,
        )) && r.1 is None && final(state)@ == old(state)@,
        !old(state)@.groups.contains_key(g) && net is Err ==> r.0 is Err
            && is_network_error(r.0->Err_0, net->Err_0@) && r.1 is None && final(state)@
            == old(state)@,
        !old(state)@.groups.contains_key(g) && net is Ok ==> r.0
            == Ok::<u64, CommandError>(g) && is_group_update(r.1, g, info@) && final(state)@
            == with_new_group(old(state)@, g, info@, me@, profile@),
{
    if state.has_group(g) {
        return (Err(CommandError::GroupIdTaken), None);
    }
    match net {
        Err(e) => (Err(CommandError::Network(e)), None),
        Ok(()) => {
            let ghost s0 = state@;
            if !state.has_user(me) {
                state.add_user(me.clone(), profile);
            }
            let ghost s1 = state@;
            assert(s1.users == with_new_group(s0, g, info@, me@, profile@).users);
            let shown = info.clone();
            state.add_group(g, info, me);
            assert(state@ == with_new_group(s0, g, shown@, me@, profile@));
            (Ok(g), Some(FrontendEvent::GroupUpdate { group: g, info: shown }))
        },
    }
}

} // verus!
