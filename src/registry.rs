use vstd::prelude::*;
use crate::bytes::same_bytes;

verus! {

/// Whether `a` is one of the byte strings of `v`.
pub fn contains_bytes(v: &Vec<Vec<u8>>, a: &Vec<u8>) -> (r: bool)
    ensures
        r == addrs_view(v@).contains(a@),
{
    let mut i: usize = 0;
    while i < v.len()
        invariant
            i <= v@.len(),
            forall|j: int| 0 <= j < i ==> v@[j]@ != a@,
        decreases v@.len() - i,
    {
        if same_bytes(&v[i], a) {
            assert(addrs_view(v@)[i as int] == a@);
            return true;
        }
        i = i + 1;
    }
    assert forall|j: int| 0 <= j < addrs_view(v@).len() implies addrs_view(v@)[j] != a@ by {
        assert(v@[j]@ != a@);
    }
    false
}

/// A copy of a vector of byte strings.
pub fn copy_addrs(v: &Vec<Vec<u8>>) -> (r: Vec<Vec<u8>>)
    ensures
        addrs_view(r@) == addrs_view(v@),
{
    let r = v.clone();
    assert(addrs_view(r@) =~= addrs_view(v@)) by {
        assert forall|j: int| 0 <= j < r@.len() implies r@[j]@ == v@[j]@ by {}
    }
    r
}

/// The elements of `s` that do not occur in `rm`, order kept.
pub fn keep_absent(s: &Vec<Vec<u8>>, rm: &Vec<Vec<u8>>) -> (r: Vec<Vec<u8>>)
    ensures
        addrs_view(r@) == without(addrs_view(s@), addrs_view(rm@)),
{
    let mut r: Vec<Vec<u8>> = Vec::new();
    let mut k: usize = 0;
    while k < s.len()
        invariant
            k <= s@.len(),
            addrs_view(r@) == without(addrs_view(s@.take(k as int)), addrs_view(rm@)),
        decreases s@.len() - k,
    {
        let ghost before = addrs_view(s@.take(k as int));
        assert(addrs_view(s@.take(k + 1)).drop_last() =~= before);
        assert(addrs_view(s@.take(k + 1)).last() == s@[k as int]@);
        if !contains_bytes(rm, &s[k]) {
            let x = s[k].clone();
            let ghost prev = r@;
            r.push(x);
            assert(addrs_view(r@) =~= addrs_view(prev).push(x@));
        }
        k = k + 1;
    }
    assert(s@.take(s@.len() as int) =~= s@);
    r
}

/// The abstract registry: each live listener maps to its bound addresses.
pub type RegistryModel = Map<u64, Seq<Seq<u8>>>;

/// The address sequences of a vector of byte strings.
pub open spec fn addrs_view(v: Seq<Vec<u8>>) -> Seq<Seq<u8>> {
    v.map_values(|a: Vec<u8>| a@)
}

/// `s` with every element that occurs in `rm` left out, order kept.
pub open spec fn without(s: Seq<Seq<u8>>, rm: Seq<Seq<u8>>) -> Seq<Seq<u8>>
    decreases s.len(),
{
    if s.len() == 0 {
        s
    } else {
        let rest = without(s.drop_last(), rm);
        if rm.contains(s.last()) {
            rest
        } else {
            rest.push(s.last())
        }
    }
}

/// The registry after listener `id` reported the new address `a`.
/// An address already recorded for the listener is not recorded twice.
pub open spec fn added(m: RegistryModel, id: u64, a: Seq<u8>) -> RegistryModel {
    if m.contains_key(id) {
        if m[id].contains(a) {
            m
        } else {
            m.insert(id, m[id].push(a))
        }
    } else {
        m.insert(id, seq![a])
    }
}

/// The registry after listener `id` closed the addresses `rm`.
/// A listener left with no address is removed.
pub open spec fn closed(m: RegistryModel, id: u64, rm: Seq<Seq<u8>>) -> RegistryModel {
    if !m.contains_key(id) {
        m
    } else if without(m[id], rm).len() == 0 {
        m.remove(id)
    } else {
        m.insert(id, without(m[id], rm))
    }
}

pub struct ListenerEntry {
    pub id: u64,
    pub addresses: Vec<Vec<u8>>,
}

/// Listener identifiers and the addresses bound to each of them.
pub struct ListenerRegistry {
    entries: Vec<ListenerEntry>,
    model: Ghost<RegistryModel>,
}

impl View for ListenerRegistry {
    type V = RegistryModel;

    closed spec fn view(&self) -> RegistryModel {
        self.model@
    }
}

impl ListenerRegistry {
    /// Each entry is recorded in the model, identifiers are unique, the model
    /// holds nothing else, and no listener is kept with an empty address set.
    pub closed spec fn wf(&self) -> bool {
        &&& forall|i: int|
            #![trigger self.entries@[i]]
            0 <= i < self.entries@.len() ==> {
                &&& self.model@.contains_key(self.entries@[i].id)
                &&& self.model@[self.entries@[i].id] == addrs_view(self.entries@[i].addresses@)
            }
        &&& forall|i: int, j: int|
            0 <= i < self.entries@.len() && 0 <= j < self.entries@.len() && i != j
                ==> self.entries@[i].id != self.entries@[j].id
        &&& forall|k: u64| #[trigger]
            self.model@.contains_key(k) ==> exists|i: int|
                0 <= i < self.entries@.len() && self.entries@[i].id == k
        &&& forall|k: u64| #[trigger] self.model@.contains_key(k) ==> self.model@[k].len() > 0
    }

    pub fn new() -> (r: Self)
        ensures
            r.wf(),
            r@ == Map::<u64, Seq<Seq<u8>>>::empty(),
    {
        ListenerRegistry { entries: Vec::new(), model: Ghost(Map::empty()) }
    }

    fn find(&self, id: u64) -> (r: Option<usize>)
        requires
            self.wf(),
        ensures
            match r {
                Some(i) => i < self.entries@.len() && self.entries@[i as int].id == id,
                None => !self@.contains_key(id),
            },
    {
        let mut i: usize = 0;
        while i < self.entries.len()
            invariant
                self.wf(),
                i <= self.entries@.len(),
                forall|j: int| 0 <= j < i ==> self.entries@[j].id != id,
            decreases self.entries@.len() - i,
        {
            if self.entries[i].id == id {
                return Some(i);
            }
            i = i + 1;
        }
        None
    }

    /// The addresses currently bound to listener `id`, if it is live.
    pub fn get(&self, id: u64) -> (r: Option<Vec<Vec<u8>>>)
        requires
            self.wf(),
        ensures
            match r {
                Some(v) => self@.contains_key(id) && addrs_view(v@) == self@[id],
                None => !self@.contains_key(id),
            },
    {
        match self.find(id) {
            Some(i) => Some(copy_addrs(&self.entries[i].addresses)),
            None => None,
        }
    }

    /// Records that listener `id` is bound to `a`, and returns the listener's
    /// full address set afterwards.
    pub fn add_address(&mut self, id: u64, a: Vec<u8>) -> (r: Vec<Vec<u8>>)
        requires
            old(self).wf(),
        ensures
            final(self).wf(),
            final(self)@ == added(old(self)@, id, a@),
            final(self)@.contains_key(id),
            addrs_view(r@) == final(self)@[id],
    {
        match self.find(id) {
            Some(i) => {
                assert(self@[id] == addrs_view(self.entries@[i as int].addresses@));
                let cur = copy_addrs(&self.entries[i].addresses);
                if contains_bytes(&cur, &a) {
                    cur
                } else {
                    let mut next = cur;
                    let ghost av = a@;
                    next.push(a);
                    assert(addrs_view(next@) =~= self@[id].push(av));
                    let out = copy_addrs(&next);
                    let ghost pre = self.entries@;
                    self.entries.set(i, ListenerEntry { id, addresses: next });
                    self.model = Ghost(self.model@.insert(id, addrs_view(out@)));
                    assert(self.model@ =~= added(old(self)@, id, av));
                    assert forall|j: int|
                        #![trigger self.entries@[j]]
                        0 <= j < self.entries@.len() implies {
                        &&& self.model@.contains_key(self.entries@[j].id)
                        &&& self.model@[self.entries@[j].id] == addrs_view(
                            self.entries@[j].addresses@,
                        )
                    } by {
                        if j != i {
                            assert(self.entries@[j] == pre[j]);
                            assert(pre[j].id != id);
                        }
                    }
                    assert forall|a: int, b: int|
                        0 <= a < self.entries@.len() && 0 <= b < self.entries@.len() && a
                            != b implies self.entries@[a].id != self.entries@[b].id by {
                        assert(self.entries@[a].id == pre[a].id);
                        assert(self.entries@[b].id == pre[b].id);
                    }
                    assert forall|k: u64| #[trigger] self.model@.contains_key(k) implies exists|
                        j: int,
                    | 0 <= j < self.entries@.len() && self.entries@[j].id == k by {
                        if k == id {
                            assert(self.entries@[i as int].id == k);
                        } else {
                            let j = choose|j: int|
                                0 <= j < old(self).entries@.len() && old(self).entries@[j].id
                                    == k;
                            assert(self.entries@[j].id == k);
                        }
                    }
                    out
                }
            },
            None => {
                let ghost av = a@;
                let mut next: Vec<Vec<u8>> = Vec::new();
                next.push(a);
                assert(addrs_view(next@) =~= seq![av]);
                let out = copy_addrs(&next);
                let ghost pre = self.entries@;
                self.entries.push(ListenerEntry { id, addresses: next });
                self.model = Ghost(self.model@.insert(id, addrs_view(out@)));
                assert(self.model@ =~= added(old(self)@, id, av));
                assert forall|j: int|
                    #![trigger self.entries@[j]]
                    0 <= j < self.entries@.len() implies {
                    &&& self.model@.contains_key(self.entries@[j].id)
                    &&& self.model@[self.entries@[j].id] == addrs_view(
                        self.entries@[j].addresses@,
                    )
                } by {
                    if j < pre.len() {
                        assert(self.entries@[j] == pre[j]);
                        assert(old(self)@.contains_key(pre[j].id));
                    }
                }
                assert forall|a: int, b: int|
                    0 <= a < self.entries@.len() && 0 <= b < self.entries@.len() && a
                        != b implies self.entries@[a].id != self.entries@[b].id by {
                    if a < pre.len() {
                        assert(self.entries@[a] == pre[a]);
                        assert(old(self)@.contains_key(pre[a].id));
                    }
                    if b < pre.len() {
                        assert(self.entries@[b] == pre[b]);
                        assert(old(self)@.contains_key(pre[b].id));
                    }
                }
                let ghost n: int = self.entries@.len() - 1;
                assert forall|k: u64| #[trigger] self.model@.contains_key(k) implies exists|j: int|
                    0 <= j < self.entries@.len() && self.entries@[j].id == k by {
                    if k == id {
                        assert(self.entries@[n].id == k);
                    } else {
                        let j = choose|j: int|
                            0 <= j < old(self).entries@.len() && old(self).entries@[j].id == k;
                        assert(self.entries@[j].id == k);
                    }
                }
                out
            },
        }
    }

    /// Removes the addresses `rm` from listener `id`. Returns the listener's
    /// remaining addresses (possibly none) if it was live; a listener left
    /// with no address is dropped from the registry.
    pub fn close(&mut self, id: u64, rm: &Vec<Vec<u8>>) -> (r: Option<Vec<Vec<u8>>>)
        requires
            old(self).wf(),
        ensures
            final(self).wf(),
            final(self)@ == closed(old(self)@, id, addrs_view(rm@)),
            match r {
                Some(v) => old(self)@.contains_key(id) && addrs_view(v@) == without(
                    old(self)@[id],
                    addrs_view(rm@),
                ),
                None => !old(self)@.contains_key(id),
            },
    {
        match self.find(id) {
            None => None,
            Some(i) => {
                assert(self@[id] == addrs_view(self.entries@[i as int].addresses@));
                let kept = keep_absent(&self.entries[i].addresses, rm);
                let out = copy_addrs(&kept);
                if kept.len() == 0 {
                    let ghost pre = self.entries@;
                    self.entries.remove(i);
                    self.model = Ghost(self.model@.remove(id));
                    assert(self.model@ =~= closed(old(self)@, id, addrs_view(rm@)));
                    assert forall|j: int|
                        #![trigger self.entries@[j]]
                        0 <= j < self.entries@.len() implies {
                        &&& self.model@.contains_key(self.entries@[j].id)
                        &&& self.model@[self.entries@[j].id] == addrs_view(
                            self.entries@[j].addresses@,
                        )
                    } by {
                        if j < i {
                            assert(self.entries@[j] == pre[j]);
                        } else {
                            assert(self.entries@[j] == pre[j + 1]);
                        }
                    }
                    assert forall|a: int, b: int|
                        0 <= a < self.entries@.len() && 0 <= b < self.entries@.len() && a
                            != b implies self.entries@[a].id != self.entries@[b].id by {
                        let a0 = if a < i { a } else { a + 1 };
                        let b0 = if b < i { b } else { b + 1 };
                        assert(self.entries@[a] == pre[a0]);
                        assert(self.entries@[b] == pre[b0]);
                    }
                    assert forall|k: u64| #[trigger] self.model@.contains_key(k) implies exists|
                        j: int,
                    | 0 <= j < self.entries@.len() && self.entries@[j].id == k by {
                        let j = choose|j: int| 0 <= j < pre.len() && pre[j].id == k;
                        assert(j != i);
                        if j < i {
                            assert(self.entries@[j] == pre[j]);
                        } else {
                            assert(self.entries@[j - 1] == pre[j]);
                        }
                    }
                } else {
                    let ghost pre = self.entries@;
                    self.entries.set(i, ListenerEntry { id, addresses: kept });
                    self.model = Ghost(self.model@.insert(id, addrs_view(out@)));
                    assert(self.model@ =~= closed(old(self)@, id, addrs_view(rm@)));
                    assert forall|j: int|
                        #![trigger self.entries@[j]]
                        0 <= j < self.entries@.len() implies {
                        &&& self.model@.contains_key(self.entries@[j].id)
                        &&& self.model@[self.entries@[j].id] == addrs_view(
                            self.entries@[j].addresses@,
                        )
                    } by {
                        if j != i {
                            assert(self.entries@[j] == pre[j]);
                            assert(pre[j].id != id);
                        }
                    }
                    assert forall|a: int, b: int|
                        0 <= a < self.entries@.len() && 0 <= b < self.entries@.len() && a
                            != b implies self.entries@[a].id != self.entries@[b].id by {
                        assert(self.entries@[a].id == pre[a].id);
                        assert(self.entries@[b].id == pre[b].id);
                    }
                    assert forall|k: u64| #[trigger] self.model@.contains_key(k) implies exists|
                        j: int,
                    | 0 <= j < self.entries@.len() && self.entries@[j].id == k by {
                        if k == id {
                            assert(self.entries@[i as int].id == k);
                        } else {
                            let j = choose|j: int|
                                0 <= j < old(self).entries@.len() && old(self).entries@[j].id
                                    == k;
                            assert(self.entries@[j].id == k);
                        }
                    }
                }
                Some(out)
            },
        }
    }

    /// Every live listener identifier, once each.
    pub fn ids(&self) -> (r: Vec<u64>)
        requires
            self.wf(),
        ensures
            r@.to_set() == self@.dom(),
            r@.no_duplicates(),
    {
        let mut r: Vec<u64> = Vec::new();
        let mut i: usize = 0;
        while i < self.entries.len()
            invariant
                self.wf(),
                i <= self.entries@.len(),
                r@.len() == i,
                forall|j: int| 0 <= j < i ==> r@[j] == #[trigger] self.entries@[j].id,
            decreases self.entries@.len() - i,
        {
            r.push(self.entries[i].id);
            i = i + 1;
        }
        assert forall|k: u64| r@.to_set().contains(k) <==> self@.dom().contains(k) by {
            if self@.dom().contains(k) {
                let j = choose|j: int| 0 <= j < self.entries@.len() && self.entries@[j].id == k;
                assert(r@[j] == k);
            }
            if r@.to_set().contains(k) {
                let j = choose|j: int| 0 <= j < r@.len() && r@[j] == k;
                assert(self.entries@[j].id == k);
            }
        }
        assert(r@.to_set() =~= self@.dom());
        assert forall|a: int, b: int| 0 <= a < r@.len() && 0 <= b < r@.len() && a != b implies r@[a]
            != r@[b] by {
            assert(r@[a] == self.entries@[a].id);
            assert(r@[b] == self.entries@[b].id);
        }
        r
    }
}

} // verus!
