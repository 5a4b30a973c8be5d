use vstd::prelude::*;
use crate::bytes::same_bytes;
use crate::registry::{addrs_view, contains_bytes, copy_addrs, keep_absent, without};

verus! {

/// A message as recorded in a group's history.
pub struct MessageModel {
    pub content: Seq<u8>,
    pub author: Seq<u8>,
    pub created: u64,
}

/// A group: its descriptive metadata, subscribed peers and message history.
pub struct GroupModel {
    pub info: Seq<u8>,
    pub members: Seq<Seq<u8>>,
    pub messages: Seq<MessageModel>,
}

/// The whole aggregate: groups by identifier and user profiles by peer.
pub struct ChatModel {
    pub groups: Map<u64, GroupModel>,
    pub users: Map<Seq<u8>, Seq<u8>>,
}

/// The member list after `p` subscribed: a peer is listed once.
pub open spec fn joined(members: Seq<Seq<u8>>, p: Seq<u8>) -> Seq<Seq<u8>> {
    if members.contains(p) {
        members
    } else {
        members.push(p)
    }
}

/// The member list after `p` unsubscribed.
pub open spec fn left(members: Seq<Seq<u8>>, p: Seq<u8>) -> Seq<Seq<u8>> {
    without(members, seq![p])
}

/// The aggregate after `p` subscribed to the existing group `g`.
pub open spec fn with_member(s: ChatModel, g: u64, p: Seq<u8>) -> ChatModel {
    ChatModel {
        groups: s.groups.insert(g, GroupModel { members: joined(s.groups[g].members, p), ..s.groups[g] }),
        ..s
    }
}

/// The aggregate after `p` unsubscribed from the existing group `g`.
pub open spec fn without_member(s: ChatModel, g: u64, p: Seq<u8>) -> ChatModel {
    ChatModel {
        groups: s.groups.insert(g, GroupModel { members: left(s.groups[g].members, p), ..s.groups[g] }),
        ..s
    }
}

/// The aggregate after `m` was appended to the history of the existing group `g`.
pub open spec fn with_message(s: ChatModel, g: u64, m: MessageModel) -> ChatModel {
    ChatModel {
        groups: s.groups.insert(g, GroupModel { messages: s.groups[g].messages.push(m), ..s.groups[g] }),
        ..s
    }
}

/// A message stamped with its author and creation time.
pub struct GroupMessage {
    pub content: Vec<u8>,
    pub author: Vec<u8>,
    pub created: u64,
}

impl View for GroupMessage {
    type V = MessageModel;

    open spec fn view(&self) -> MessageModel {
        MessageModel { content: self.content@, author: self.author@, created: self.created }
    }
}

impl GroupMessage {
    /// Stamps `content` with its author and creation time.
    pub fn new(content: Vec<u8>, author: Vec<u8>, created: u64) -> (r: Self)
        ensures
            r@ == (MessageModel { content: content@, author: author@, created }),
    {
        GroupMessage { content, author, created }
    }

    pub fn copy(&self) -> (r: Self)
        ensures
            r@ == self@,
    {
        GroupMessage { content: self.content.clone(), author: self.author.clone(), created: self.created }
    }
}

/// The message models of a vector of messages.
pub open spec fn messages_view(v: Seq<GroupMessage>) -> Seq<MessageModel> {
    v.map_values(|m: GroupMessage| m@)
}

fn copy_messages(v: &Vec<GroupMessage>) -> (r: Vec<GroupMessage>)
    ensures
        messages_view(r@) == messages_view(v@),
{
    let mut r: Vec<GroupMessage> = Vec::new();
    let mut i: usize = 0;
    while i < v.len()
        invariant
            i <= v@.len(),
            messages_view(r@) == messages_view(v@.take(i as int)),
        decreases v@.len() - i,
    {
        let m = v[i].copy();
        let ghost prev = r@;
        r.push(m);
        assert(messages_view(r@) =~= messages_view(v@.take(i + 1))) by {
            assert(messages_view(r@) =~= messages_view(prev).push(m@));
            assert(messages_view(v@.take(i + 1)) =~= messages_view(v@.take(i as int)).push(
                v@[i as int]@,
            ));
        }
        i = i + 1;
    }
    assert(v@.take(v@.len() as int) =~= v@);
    r
}

pub struct GroupRecord {
    pub id: u64,
    pub info: Vec<u8>,
    pub members: Vec<Vec<u8>>,
    pub messages: Vec<GroupMessage>,
}

impl GroupRecord {
    pub open spec fn model(&self) -> GroupModel {
        GroupModel {
            info: self.info@,
            members: addrs_view(self.members@),
            messages: messages_view(self.messages@),
        }
    }
}

/// A group identifier and its descriptive metadata.
pub struct GroupSummary {
    pub id: u64,
    pub info: Vec<u8>,
}

pub struct UserRecord {
    pub peer: Vec<u8>,
    pub info: Vec<u8>,
}

/// The store of groups, their members and messages, and user profiles.
pub struct ChatState {
    groups: Vec<GroupRecord>,
    users: Vec<UserRecord>,
    model: Ghost<Map<u64, GroupModel>>,
}

impl View for ChatState {
    type V = ChatModel;

    closed spec fn view(&self) -> ChatModel {
        ChatModel {
            groups: self.model@,
            users: Map::new(
                |p: Seq<u8>| exists|i: int| 0 <= i < self.users@.len() && self.users@[i].peer@ == p,
                |p: Seq<u8>|
                    self.users@[choose|i: int|
                        0 <= i < self.users@.len() && self.users@[i].peer@ == p].info@,
            ),
        }
    }
}

impl ChatState {
    /// Each group record is in the model, identifiers are unique, the model
    /// holds nothing else, and each peer has at most one profile.
    pub closed spec fn wf(&self) -> bool {
        &&& forall|i: int|
            #![trigger self.groups@[i]]
            0 <= i < self.groups@.len() ==> {
                &&& self.model@.contains_key(self.groups@[i].id)
                &&& self.model@[self.groups@[i].id] == self.groups@[i].model()
            }
        &&& forall|i: int, j: int|
            0 <= i < self.groups@.len() && 0 <= j < self.groups@.len() && i != j
                ==> self.groups@[i].id != self.groups@[j].id
        &&& forall|k: u64| #[trigger]
            self.model@.contains_key(k) ==> exists|i: int|
                0 <= i < self.groups@.len() && self.groups@[i].id == k
        &&& forall|i: int, j: int|
            0 <= i < self.users@.len() && 0 <= j < self.users@.len() && i != j
                ==> self.users@[i].peer@ != self.users@[j].peer@
    }

    pub fn new() -> (r: Self)
        ensures
            r.wf(),
            r@.groups == Map::<u64, GroupModel>::empty(),
            r@.users == Map::<Seq<u8>, Seq<u8>>::empty(),
    {
        let r = ChatState { groups: Vec::new(), users: Vec::new(), model: Ghost(Map::empty()) };
        assert(r@.users =~= Map::<Seq<u8>, Seq<u8>>::empty());
        r
    }

    fn find(&self, g: u64) -> (r: Option<usize>)
        requires
            self.wf(),
        ensures
            match r {
                Some(i) => i < self.groups@.len() && self.groups@[i as int].id == g
                    && self@.groups.contains_key(g) && self@.groups[g]
                    == self.groups@[i as int].model(),
                None => !self@.groups.contains_key(g),
            },
    {
        let mut i: usize = 0;
        while i < self.groups.len()
            invariant
                self.wf(),
                i <= self.groups@.len(),
                forall|j: int| 0 <= j < i ==> self.groups@[j].id != g,
            decreases self.groups@.len() - i,
        {
            if self.groups[i].id == g {
                return Some(i);
            }
            i = i + 1;
        }
        None
    }

    /// The metadata of the existing group `g`.
    pub fn group_info(&self, g: u64) -> (r: Vec<u8>)
        requires
            self.wf(),
            self@.groups.contains_key(g),
        ensures
            r@ == self@.groups[g].info,
    {
        let i = self.find(g).unwrap();
        self.groups[i].info.clone()
    }

    /// The number of messages in the history of group `g`, if it exists.
    pub fn message_count(&self, g: u64) -> (r: Option<usize>)
        requires
            self.wf(),
        ensures
            match r {
                Some(n) => self@.groups.contains_key(g) && n == self@.groups[g].messages.len(),
                None => !self@.groups.contains_key(g),
            },
    {
        match self.find(g) {
            Some(i) => Some(self.groups[i].messages.len()),
            None => None,
        }
    }

    /// Whether `peer` is a member of group `g`.
    pub fn is_member(&self, g: u64, peer: &Vec<u8>) -> (r: bool)
        requires
            self.wf(),
        ensures
            r == (self@.groups.contains_key(g) && self@.groups[g].members.contains(peer@)),
    {
        match self.find(g) {
            Some(i) => contains_bytes(&self.groups[i].members, peer),
            None => false,
        }
    }

    /// Whether group `g` exists.
    pub fn has_group(&self, g: u64) -> (r: bool)
        requires
            self.wf(),
        ensures
            r == self@.groups.contains_key(g),
    {
        self.find(g).is_some()
    }

    /// Every group with its metadata, once each.
    pub fn group_list(&self) -> (r: Vec<GroupSummary>)
        requires
            self.wf(),
        ensures
            forall|k: u64|
                #[trigger] self@.groups.contains_key(k) ==> exists|j: int|
                    0 <= j < r@.len() && r@[j].id == k,
            forall|j: int|
                #![trigger r@[j]]
                0 <= j < r@.len() ==> self@.groups.contains_key(r@[j].id) && r@[j].info@
                    == self@.groups[r@[j].id].info,
            forall|a: int, b: int|
                0 <= a < r@.len() && 0 <= b < r@.len() && a != b ==> r@[a].id != r@[b].id,
    {
        let mut r: Vec<GroupSummary> = Vec::new();
        let mut i: usize = 0;
        while i < self.groups.len()
            invariant
                self.wf(),
                i <= self.groups@.len(),
                r@.len() == i,
                forall|j: int|
                    #![trigger r@[j]]
                    0 <= j < i ==> r@[j].id == self.groups@[j].id && r@[j].info@
                        == self.groups@[j].info@,
            decreases self.groups@.len() - i,
        {
            r.push(GroupSummary { id: self.groups[i].id, info: self.groups[i].info.clone() });
            i = i + 1;
        }
        assert forall|k: u64| #[trigger] self@.groups.contains_key(k) implies exists|j: int|
            0 <= j < r@.len() && r@[j].id == k by {
            let j = choose|j: int| 0 <= j < self.groups@.len() && self.groups@[j].id == k;
            assert(r@[j].id == k);
        }
        assert forall|j: int|
            #![trigger r@[j]]
            0 <= j < r@.len() implies self@.groups.contains_key(r@[j].id) && r@[j].info@
                == self@.groups[r@[j].id].info by {
            assert(self.groups@[j].id == r@[j].id);
        }
        assert forall|a: int, b: int|
            0 <= a < r@.len() && 0 <= b < r@.len() && a != b implies r@[a].id != r@[b].id by {
            assert(r@[a].id == self.groups@[a].id);
            assert(r@[b].id == self.groups@[b].id);
        }
        r
    }

    /// Replaces the record of an existing group.
    fn replace(&mut self, i: usize, rec: GroupRecord)
        requires
            old(self).wf(),
            i < old(self).groups@.len(),
            rec.id == old(self).groups@[i as int].id,
        ensures
            final(self).wf(),
            final(self)@ == (ChatModel { groups: old(self)@.groups.insert(rec.id, rec.model()), ..old(self)@ }),
    {
        let ghost pre = self.groups@;
        let ghost g = rec.id;
        let ghost gm = rec.model();
        self.groups.set(i, rec);
        self.model = Ghost(self.model@.insert(g, gm));
        assert forall|j: int|
            #![trigger self.groups@[j]]
            0 <= j < self.groups@.len() implies {
            &&& self.model@.contains_key(self.groups@[j].id)
            &&& self.model@[self.groups@[j].id] == self.groups@[j].model()
        } by {
            if j != i {
                assert(self.groups@[j] == pre[j]);
                assert(pre[j].id != g);
            }
        }
        assert forall|a: int, b: int|
            0 <= a < self.groups@.len() && 0 <= b < self.groups@.len() && a != b implies self.groups@[a].id
                != self.groups@[b].id by {
            assert(self.groups@[a].id == pre[a].id);
            assert(self.groups@[b].id == pre[b].id);
        }
        assert forall|k: u64| #[trigger] self.model@.contains_key(k) implies exists|j: int|
            0 <= j < self.groups@.len() && self.groups@[j].id == k by {
            if k == g {
                assert(self.groups@[i as int].id == k);
            } else {
                let j = choose|j: int| 0 <= j < pre.len() && pre[j].id == k;
                assert(self.groups@[j].id == k);
            }
        }
        assert(self@.users =~= old(self)@.users);
    }

    fn copy_record(&self, i: usize) -> (r: GroupRecord)
        requires
            i < self.groups@.len(),
        ensures
            r.id == self.groups@[i as int].id,
            r.model() == self.groups@[i as int].model(),
    {
        let rec = &self.groups[i];
        GroupRecord {
            id: rec.id,
            info: rec.info.clone(),
            members: copy_addrs(&rec.members),
            messages: copy_messages(&rec.messages),
        }
    }

    /// Records `peer` as a member of the existing group `g`.
    pub fn join(&mut self, g: u64, peer: &Vec<u8>)
        requires
            old(self).wf(),
            old(self)@.groups.contains_key(g),
        ensures
            final(self).wf(),
            final(self)@ == with_member(old(self)@, g, peer@),
    {
        let i = self.find(g).unwrap();
        let mut rec = self.copy_record(i);
        if !contains_bytes(&rec.members, peer) {
            let ghost prev = rec.members@;
            rec.members.push(peer.clone());
            assert(addrs_view(rec.members@) =~= addrs_view(prev).push(peer@));
        }
        assert(rec.model() == GroupModel {
            members: joined(old(self)@.groups[g].members, peer@),
            ..old(self)@.groups[g]
        });
        self.replace(i, rec);
    }

    /// Removes `peer` from the members of group `g`; nothing changes when the
    /// group does not exist.
    pub fn leave(&mut self, g: u64, peer: &Vec<u8>)
        requires
            old(self).wf(),
        ensures
            final(self).wf(),
            old(self)@.groups.contains_key(g) ==> final(self)@ == without_member(old(self)@, g, peer@),
            !old(self)@.groups.contains_key(g) ==> final(self)@ == old(self)@,
    {
        match self.find(g) {
            None => {},
            Some(i) => {
                let mut rec = self.copy_record(i);
                let mut one: Vec<Vec<u8>> = Vec::new();
                one.push(peer.clone());
                assert(addrs_view(one@) =~= seq![peer@]);
                rec.members = keep_absent(&rec.members, &one);
                assert(rec.model() == GroupModel {
                    members: left(old(self)@.groups[g].members, peer@),
                    ..old(self)@.groups[g]
                });
                self.replace(i, rec);
            },
        }
    }

    /// Appends `m` to the history of the existing group `g`.
    pub fn append_message(&mut self, g: u64, m: GroupMessage)
        requires
            old(self).wf(),
            old(self)@.groups.contains_key(g),
        ensures
            final(self).wf(),
            final(self)@ == with_message(old(self)@, g, m@),
    {
        let i = self.find(g).unwrap();
        let mut rec = self.copy_record(i);
        let ghost prev = rec.messages@;
        let ghost mv = m@;
        rec.messages.push(m);
        assert(messages_view(rec.messages@) =~= messages_view(prev).push(mv));
        self.replace(i, rec);
    }

    /// Registers group `g` with metadata `info` and `creator` as its only
    /// member and no messages.
    pub fn add_group(&mut self, g: u64, info: Vec<u8>, creator: &Vec<u8>)
        requires
            old(self).wf(),
            !old(self)@.groups.contains_key(g),
        ensures
            final(self).wf(),
            final(self)@ == (ChatModel {
                groups: old(self)@.groups.insert(
                    g,
                    GroupModel { info: info@, members: seq![creator@], messages: seq![] },
                ),
                ..old(self)@
            }),
    {
        let mut members: Vec<Vec<u8>> = Vec::new();
        members.push(creator.clone());
        let rec = GroupRecord { id: g, info, members, messages: Vec::new() };
        assert(rec.model().members =~= seq![creator@]);
        assert(rec.model().messages =~= Seq::<MessageModel>::empty());
        let ghost gm = rec.model();
        let ghost pre = self.groups@;
        self.groups.push(rec);
        self.model = Ghost(self.model@.insert(g, gm));
        assert forall|j: int|
            #![trigger self.groups@[j]]
            0 <= j < self.groups@.len() implies {
            &&& self.model@.contains_key(self.groups@[j].id)
            &&& self.model@[self.groups@[j].id] == self.groups@[j].model()
        } by {
            if j < pre.len() {
                assert(self.groups@[j] == pre[j]);
                assert(old(self)@.groups.contains_key(pre[j].id));
            }
        }
        assert forall|a: int, b: int|
            0 <= a < self.groups@.len() && 0 <= b < self.groups@.len() && a != b implies self.groups@[a].id
                != self.groups@[b].id by {
            if a < pre.len() {
                assert(self.groups@[a] == pre[a]);
                assert(old(self)@.groups.contains_key(pre[a].id));
            }
            if b < pre.len() {
                assert(self.groups@[b] == pre[b]);
                assert(old(self)@.groups.contains_key(pre[b].id));
            }
        }
        let ghost n: int = self.groups@.len() - 1;
        assert forall|k: u64| #[trigger] self.model@.contains_key(k) implies exists|j: int|
            0 <= j < self.groups@.len() && self.groups@[j].id == k by {
            if k == g {
                assert(self.groups@[n].id == k);
            } else {
                let j = choose|j: int| 0 <= j < pre.len() && pre[j].id == k;
                assert(self.groups@[j].id == k);
            }
        }
        assert(self@.users =~= old(self)@.users);
    }

    /// Whether a profile is recorded for `peer`.
    pub fn has_user(&self, peer: &Vec<u8>) -> (r: bool)
        ensures
            r == self@.users.contains_key(peer@),
    {
        let mut i: usize = 0;
        while i < self.users.len()
            invariant
                i <= self.users@.len(),
                forall|j: int| 0 <= j < i ==> self.users@[j].peer@ != peer@,
            decreases self.users@.len() - i,
        {
            if same_bytes(&self.users[i].peer, peer) {
                assert(self@.users.dom().contains(peer@));
                return true;
            }
            i = i + 1;
        }
        false
    }

    /// Records the profile `info` for a peer that has none yet.
    pub fn add_user(&mut self, peer: Vec<u8>, info: Vec<u8>)
        requires
            old(self).wf(),
            !old(self)@.users.contains_key(peer@),
        ensures
            final(self).wf(),
            final(self)@ == (ChatModel { users: old(self)@.users.insert(peer@, info@), ..old(self)@ }),
    {
        let ghost pv = peer@;
        let ghost iv = info@;
        let ghost pre = self.users@;
        self.users.push(UserRecord { peer, info });
        let ghost n: int = pre.len() as int;
        assert forall|k: u64| #[trigger] self.model@.contains_key(k) implies exists|j: int|
            0 <= j < self.groups@.len() && self.groups@[j].id == k by {
            let j = choose|j: int|
                0 <= j < old(self).groups@.len() && old(self).groups@[j].id == k;
            assert(self.groups@[j].id == k);
        }
        assert forall|p: Seq<u8>| #[trigger] self@.users.contains_key(p) == old(self)@.users.insert(pv, iv).contains_key(p) by {
            if p == pv {
                assert(self.users@[n].peer@ == p);
            } else if self@.users.contains_key(p) {
                let j = choose|j: int| 0 <= j < self.users@.len() && self.users@[j].peer@ == p;
                assert(j < n);
                assert(pre[j].peer@ == p);
            } else if old(self)@.users.contains_key(p) {
                let j = choose|j: int| 0 <= j < pre.len() && pre[j].peer@ == p;
                assert(self.users@[j].peer@ == p);
            }
        }
        assert forall|p: Seq<u8>| #[trigger] self@.users.contains_key(p) implies self@.users[p]
            == old(self)@.users.insert(pv, iv)[p] by {
            let j = choose|j: int| 0 <= j < self.users@.len() && self.users@[j].peer@ == p;
            if p == pv {
                assert(j == n);
            } else {
                assert(j < n);
                assert(pre[j] == self.users@[j]);
                let j0 = choose|j0: int| 0 <= j0 < pre.len() && pre[j0].peer@ == p;
                assert(self.users@[j0] == pre[j0]);
                assert(j == j0);
            }
        }
        assert(self@.users =~= old(self)@.users.insert(pv, iv));
        assert forall|a: int, b: int|
            0 <= a < self.users@.len() && 0 <= b < self.users@.len() && a != b implies self.users@[a].peer@
                != self.users@[b].peer@ by {
            if a == n {
                assert(!old(self)@.users.contains_key(pv));
                if self.users@[b].peer@ == pv {
                    assert(pre[b].peer@ == pv);
                }
            }
            if b == n {
                if self.users@[a].peer@ == pv {
                    assert(pre[a].peer@ == pv);
                }
            }
        }
    }
}

} // verus!
