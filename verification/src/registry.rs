//! The registry: who is currently reachable, and through which channel.
//!
//! A [`Registry`] maps client identities to outbound channels. It is generic in
//! the channel type `C`, which it stores and hands back but never looks into.
//! Its model is a `Map` from identity to channel (the view) together with the
//! order in which the identities are served by a broadcast.

use vstd::prelude::*;

verus! {

/// The serving order after `identity` connects: a known identity keeps its
/// place, a new one joins at the end.
pub open spec fn order_with(order: Seq<Seq<char>>, identity: Seq<char>) -> Seq<Seq<char>> {
    if order.contains(identity) {
        order
    } else {
        order.push(identity)
    }
}

/// The serving order after `identity` disconnects.
pub open spec fn order_without(order: Seq<Seq<char>>, identity: Seq<char>) -> Seq<Seq<char>> {
    order.remove_value(identity)
}

/// One change to who is connected.
pub enum Change {
    /// A client connects under this identity.
    Connect(Seq<char>),
    /// The client under this identity disconnects.
    Disconnect(Seq<char>),
}

/// The serving order after a run of changes, one after the other.
pub open spec fn order_after(order: Seq<Seq<char>>, changes: Seq<Change>) -> Seq<Seq<char>>
    decreases changes.len(),
{
    if changes.len() == 0 {
        order
    } else {
        let before = order_after(order, changes.drop_last());
        match changes.last() {
            Change::Connect(identity) => order_with(before, identity),
            Change::Disconnect(identity) => order_without(before, identity),
        }
    }
}

#[derive(Debug)]
struct Entry<C> {
    identity: String,
    channel: C,
}

/// The identities of `entries`, place by place.
spec fn identities_of<C>(entries: Seq<Entry<C>>) -> Seq<Seq<char>> {
    Seq::new(entries.len(), |i: int| entries[i].identity@)
}

/// A directory of connected clients, at most one channel per identity.
#[derive(Debug)]
pub struct Registry<C> {
    entries: Vec<Entry<C>>,
}

impl<C> View for Registry<C> {
    type V = Map<Seq<char>, C>;

    /// The channel registered under each identity.
    closed spec fn view(&self) -> Map<Seq<char>, C> {
        Map::new(
            |identity: Seq<char>| self.order().contains(identity),
            |identity: Seq<char>| self.entries@[self.order().index_of(identity)].channel,
        )
    }
}

impl<C> Registry<C> {
    /// The registered identities, in the order in which a broadcast serves them.
    pub closed spec fn order(&self) -> Seq<Seq<char>> {
        identities_of(self.entries@)
    }

    /// No identity is listed twice, and the listed identities are exactly the
    /// registered ones.
    pub open spec fn consistent(&self) -> bool {
        &&& self.order().no_duplicates()
        &&& self@.dom() == self.order().to_set()
        &&& self@.dom().len() == self.order().len()
    }

    #[verifier::type_invariant]
    spec fn identities_unique(&self) -> bool {
        self.order().no_duplicates()
    }

    proof fn lemma_unique_is_consistent(&self)
        requires
            self.order().no_duplicates(),
        ensures
            self.consistent(),
            forall|i: int|
                0 <= i < self.entries@.len() ==> #[trigger] self@[self.order()[i]]
                    == self.entries@[i].channel,
    {
        assert(self@.dom() =~= self.order().to_set());
        self.order().unique_seq_to_set();
        assert forall|i: int| 0 <= i < self.entries@.len() implies #[trigger] self@[self.order()[i]]
            == self.entries@[i].channel by {
            let identity = self.order()[i];
            assert(self.order().contains(identity));
            assert(self.order().index_of(identity) == i);
        }
    }

    /// An empty registry.
    pub fn new() -> (registry: Self)
        ensures
            registry@ == Map::<Seq<char>, C>::empty(),
            registry.order() == Seq::<Seq<char>>::empty(),
            registry.consistent(),
    {
        let registry = Registry { entries: Vec::new() };
        proof {
            registry.lemma_unique_is_consistent();
            assert(registry@ =~= Map::<Seq<char>, C>::empty());
            assert(registry.order() =~= Seq::<Seq<char>>::empty());
        }
        registry
    }

    /// The number of registered identities.
    pub fn len(&self) -> (n: usize)
        ensures
            n == self@.dom().len(),
            n == self.order().len(),
            self.consistent(),
    {
        proof {
            use_type_invariant(self);
            self.lemma_unique_is_consistent();
        }
        self.entries.len()
    }

    /// Whether nobody is registered.
    pub fn is_empty(&self) -> (empty: bool)
        ensures
            empty <==> self@.dom().len() == 0,
            empty <==> self.order().len() == 0,
            self.consistent(),
    {
        proof {
            use_type_invariant(self);
            self.lemma_unique_is_consistent();
        }
        self.entries.len() == 0
    }

    /// The place of `identity` in `entries`, if it is listed.
    fn position(entries: &Vec<Entry<C>>, identity: &String) -> (place: Option<usize>)
        ensures
            match place {
                Some(i) => i < entries@.len() && entries@[i as int].identity@ == identity@,
                None => forall|i: int|
                    0 <= i < entries@.len() ==> (#[trigger] entries@[i]).identity@ != identity@,
            },
    {
        let mut i: usize = 0;
        while i < entries.len()
            invariant
                i <= entries@.len(),
                forall|j: int| 0 <= j < i ==> (#[trigger] entries@[j]).identity@ != identity@,
            decreases entries@.len() - i,
        {
            if entries[i].identity == *identity {
                return Some(i);
            }
            i += 1;
        }
        None
    }

    /// Whether a channel is registered under `identity`.
    pub fn contains(&self, identity: &String) -> (registered: bool)
        ensures
            registered == self@.contains_key(identity@),
            self.consistent(),
    {
        proof {
            use_type_invariant(self);
            self.lemma_unique_is_consistent();
        }
        let place = Self::position(&self.entries, identity);
        proof {
            if place is Some {
                assert(self.order()[place->0 as int] == identity@);
            }
        }
        place.is_some()
    }

    /// The channel registered under `identity`, if there is one.
    pub fn get(&self, identity: &String) -> (channel: Option<&C>)
        ensures
            channel == (if self@.contains_key(identity@) {
                Some(&self@[identity@])
            } else {
                None
            }),
            self.consistent(),
    {
        proof {
            use_type_invariant(self);
            self.lemma_unique_is_consistent();
        }
        match Self::position(&self.entries, identity) {
            Some(i) => {
                assert(self.order()[i as int] == identity@);
                Some(&self.entries[i].channel)
            },
            None => None,
        }
    }

    /// The identity served at place `index`, with its channel; `None` past the
    /// end of the serving order.
    pub fn entry_at(&self, index: usize) -> (entry: Option<(&String, &C)>)
        ensures
            entry is Some <==> index < self.order().len(),
            entry is Some ==> {
                &&& (entry->0).0@ == self.order()[index as int]
                &&& self@.contains_key(self.order()[index as int])
                &&& *(entry->0).1 == self@[self.order()[index as int]]
            },
            self.consistent(),
    {
        proof {
            use_type_invariant(self);
            self.lemma_unique_is_consistent();
        }
        if index < self.entries.len() {
            assert(self.order().contains(self.order()[index as int]));
            Some((&self.entries[index].identity, &self.entries[index].channel))
        } else {
            None
        }
    }

    /// Registers `channel` under `identity`. A channel already registered
    /// under that identity is displaced and handed back; the identity keeps
    /// its place in the serving order.
    pub fn register(&mut self, identity: String, channel: C) -> (displaced: Option<C>)
        ensures
            final(self)@ == old(self)@.insert(identity@, channel),
            final(self).order() == order_with(old(self).order(), identity@),
            displaced == (if old(self)@.contains_key(identity@) {
                Some(old(self)@[identity@])
            } else {
                None
            }),
            final(self).consistent(),
    {
        proof {
            use_type_invariant(&*self);
            self.lemma_unique_is_consistent();
        }
        let ghost before = *self;
        let mut entries: Vec<Entry<C>> = Vec::new();
        std::mem::swap(&mut entries, &mut self.entries);
        let displaced = match Self::position(&entries, &identity) {
            Some(i) => {
                let previous = entries.remove(i);
                entries.insert(i, Entry { identity, channel });
                assert(before.order()[i as int] == identity@);
                Some(previous.channel)
            },
            None => {
                entries.push(Entry { identity, channel });
                None
            },
        };
        let ghost place = if before.order().contains(identity@) {
            before.order().index_of(identity@)
        } else {
            before.order().len() as int
        };
        assert(identities_of(entries@) =~= order_with(before.order(), identity@));
        assert(entries@[place].channel == channel);
        assert(forall|k: int|
            0 <= k < before.order().len() && k != place ==> entries@[k] == before.entries@[k]);
        self.entries = entries;
        proof {
            self.lemma_unique_is_consistent();
            let target = before@.insert(identity@, channel);
            assert(self.order()[place] == identity@);
            assert forall|id: Seq<char>| self@.dom().contains(id) <==> target.dom().contains(
                id,
            ) by {
                if self.order().contains(id) {
                    let k = self.order().index_of(id);
                    if k != place {
                        assert(before.order()[k] == id);
                    }
                }
                if before.order().contains(id) {
                    let k = before.order().index_of(id);
                    assert(self.order()[k] == id);
                }
            }
            assert forall|id: Seq<char>| self@.dom().contains(id) implies #[trigger] self@[id]
                == target[id] by {
                let k = self.order().index_of(id);
                assert(self@[self.order()[k]] == self.entries@[k].channel);
                if k != place {
                    assert(before@[before.order()[k]] == before.entries@[k].channel);
                }
            }
            assert(self@ =~= target);
        }
        displaced
    }

    /// Removes the channel registered under `identity` and hands it back.
    /// Where none is registered, nothing changes.
    pub fn deregister(&mut self, identity: &String) -> (removed: Option<C>)
        ensures
            final(self)@ == old(self)@.remove(identity@),
            final(self).order() == order_without(old(self).order(), identity@),
            removed == (if old(self)@.contains_key(identity@) {
                Some(old(self)@[identity@])
            } else {
                None
            }),
            !old(self)@.contains_key(identity@) ==> {
                &&& final(self)@ == old(self)@
                &&& final(self).order() == old(self).order()
            },
            final(self).consistent(),
    {
        proof {
            use_type_invariant(&*self);
            self.lemma_unique_is_consistent();
        }
        let ghost before = *self;
        let mut entries: Vec<Entry<C>> = Vec::new();
        std::mem::swap(&mut entries, &mut self.entries);
        let place = Self::position(&entries, identity);
        let removed = match place {
            Some(i) => Some(entries.remove(i).channel),
            None => None,
        };
        proof {
            lemma_order_without(before.order(), identity@);
            match place {
                Some(i) => {
                    assert(before.order()[i as int] == identity@);
                    assert(identities_of(entries@) =~= before.order().remove(i as int));
                },
                None => {
                    assert(identities_of(entries@) =~= before.order());
                },
            }
        }
        self.entries = entries;
        proof {
            self.lemma_unique_is_consistent();
            assert(self@ =~= before@.remove(identity@)) by {
                assert forall|id: Seq<char>| self@.contains_key(id) implies #[trigger] self@[id]
                    == before@.remove(identity@)[id] by {
                    let k = self.order().index_of(id);
                    assert(self.order()[k] == id);
                    if place is Some {
                        let i = place->0 as int;
                        if k < i {
                            assert(before.order()[k] == id);
                        } else {
                            assert(before.order()[k + 1] == id);
                        }
                    } else {
                        assert(before.order()[k] == id);
                    }
                }
            }
            if !before@.contains_key(identity@) {
                assert(self@ =~= before@);
            }
        }
        removed
    }
}

/// Without duplicates, removing an identity from the serving order removes
/// its one occurrence and leaves every other identity in place.
pub proof fn lemma_order_without(order: Seq<Seq<char>>, identity: Seq<char>)
    requires
        order.no_duplicates(),
    ensures
        order_without(order, identity).no_duplicates(),
        !order_without(order, identity).contains(identity),
        forall|other: Seq<char>|
            other != identity ==> (#[trigger] order_without(order, identity).contains(other)
                <==> order.contains(other)),
        !order.contains(identity) ==> order_without(order, identity) == order,
        forall|i: int|
            0 <= i < order.len() && order[i] == identity ==> order_without(order, identity)
                == #[trigger] order.remove(i),
{
    order.index_of_first_ensures(identity);
    match order.index_of_first(identity) {
        Some(k) => {
            let rest = order.remove(k);
            assert forall|other: Seq<char>| other != identity implies (#[trigger] rest.contains(
                other,
            ) <==> order.contains(other)) by {
                if order.contains(other) {
                    let j = order.index_of(other);
                    if j < k {
                        assert(rest[j] == other);
                    } else {
                        assert(rest[j - 1] == other);
                    }
                }
            }
        },
        None => {},
    }
}

/// Whatever clients connect and disconnect, and in whatever order, no
/// identity is ever listed twice.
pub proof fn lemma_identities_stay_unique(order: Seq<Seq<char>>, changes: Seq<Change>)
    requires
        order.no_duplicates(),
    ensures
        order_after(order, changes).no_duplicates(),
    decreases changes.len(),
{
    if changes.len() > 0 {
        let before = order_after(order, changes.drop_last());
        lemma_identities_stay_unique(order, changes.drop_last());
        match changes.last() {
            Change::Connect(identity) => {},
            Change::Disconnect(identity) => {
                lemma_order_without(before, identity);
            },
        }
    }
}

/// Deregistering twice is deregistering once: the second call finds nothing
/// and changes nothing, in the directory and in the serving order.
pub proof fn lemma_deregister_is_idempotent<C>(
    directory: Map<Seq<char>, C>,
    order: Seq<Seq<char>>,
    identity: Seq<char>,
)
    requires
        order.no_duplicates(),
    ensures
        !directory.remove(identity).contains_key(identity),
        directory.remove(identity).remove(identity) == directory.remove(identity),
        order_without(order_without(order, identity), identity) == order_without(order, identity),
{
    assert(directory.remove(identity).remove(identity) =~= directory.remove(identity));
    lemma_order_without(order, identity);
    lemma_order_without(order_without(order, identity), identity);
}

} // verus!
