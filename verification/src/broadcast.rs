//! Fan-out: one message to every registered client, one delivery at a time.
//!
//! The deliveries themselves wait on channels, which only the caller can do.
//! A [`FanOut`] decides what is delivered to whom and in which order, takes
//! the outcome of each delivery, and keeps one recipient's failure from
//! touching any other delivery.

use crate::message::Message;
use crate::registry::Registry;
use vstd::prelude::*;

verus! {

/// The recipients whose delivery failed, in serving order: `recipients[k]` for
/// each `k` with `outcomes[k]` false.
pub open spec fn failures(recipients: Seq<Seq<char>>, outcomes: Seq<bool>) -> Seq<Seq<char>>
    decreases outcomes.len(),
{
    if outcomes.len() == 0 {
        Seq::empty()
    } else {
        let earlier = failures(recipients, outcomes.drop_last());
        if outcomes.last() {
            earlier
        } else {
            earlier.push(recipients[outcomes.len() - 1])
        }
    }
}

/// One delivery of a broadcast: hand `message` to `channel`, which belongs to
/// `identity`.
pub struct Delivery<'a, C> {
    pub identity: &'a String,
    pub channel: &'a C,
    pub message: Message,
}

/// What a broadcast came to.
pub struct BroadcastReport {
    /// The message that was broadcast, for the sender.
    pub acknowledgement: Message,
    /// The recipients that the message did not reach.
    pub failed: Vec<String>,
}

/// A broadcast under way over a registry that stays as it is meanwhile.
pub struct FanOut<'a, C> {
    registry: &'a Registry<C>,
    message: Message,
    outcomes: Vec<bool>,
}

impl<'a, C> FanOut<'a, C> {
    /// The identities to serve, in serving order.
    pub closed spec fn recipients(&self) -> Seq<Seq<char>> {
        self.registry.order()
    }

    /// The channel of each recipient.
    pub closed spec fn channels(&self) -> Map<Seq<char>, C> {
        self.registry@
    }

    /// The message being broadcast.
    pub closed spec fn message(&self) -> Message {
        self.message
    }

    /// The outcomes recorded so far: `outcomes()[k]` tells whether the
    /// delivery to `recipients()[k]` succeeded.
    pub closed spec fn outcomes(&self) -> Seq<bool> {
        self.outcomes@
    }

    /// Whether a delivery is still to be made.
    pub open spec fn pending(&self) -> bool {
        self.outcomes().len() < self.recipients().len()
    }

    #[verifier::type_invariant]
    spec fn within_recipients(&self) -> bool {
        self.outcomes@.len() <= self.registry.order().len()
    }

    /// The delivery to make now: to the first recipient without an outcome,
    /// through its registered channel, with a copy of the message. `None`
    /// once every recipient has an outcome.
    pub fn next(&self) -> (delivery: Option<Delivery<'a, C>>)
        ensures
            self.outcomes().len() <= self.recipients().len(),
            delivery is Some <==> self.pending(),
            delivery is Some ==> {
                &&& (delivery->0).identity@ == self.recipients()[self.outcomes().len() as int]
                &&& self.channels().contains_key((delivery->0).identity@)
                &&& *(delivery->0).channel == self.channels()[(delivery->0).identity@]
                &&& (delivery->0).message == self.message()
            },
    {
        proof {
            use_type_invariant(self);
        }
        match self.registry.entry_at(self.outcomes.len()) {
            Some((identity, channel)) => Some(
                Delivery { identity, channel, message: self.message.clone() },
            ),
            None => None,
        }
    }

    /// Takes the outcome of the delivery that `next` named. A failure is kept
    /// for the report and changes nothing else: the broadcast goes on with
    /// the next recipient either way. Without a pending delivery nothing is
    /// recorded.
    pub fn record(&mut self, delivered: bool)
        ensures
            final(self).recipients() == old(self).recipients(),
            final(self).channels() == old(self).channels(),
            final(self).message() == old(self).message(),
            final(self).outcomes() == (if old(self).pending() {
                old(self).outcomes().push(delivered)
            } else {
                old(self).outcomes()
            }),
            final(self).outcomes().len() <= final(self).recipients().len(),
    {
        proof {
            use_type_invariant(&*self);
        }
        let mut outcomes: Vec<bool> = Vec::new();
        std::mem::swap(&mut outcomes, &mut self.outcomes);
        if outcomes.len() < self.registry.len() {
            outcomes.push(delivered);
        }
        self.outcomes = outcomes;
    }

    /// Ends the broadcast: the message itself as acknowledgement, and the
    /// recipients whose delivery failed.
    pub fn finish(self) -> (report: BroadcastReport)
        ensures
            report.acknowledgement == self.message(),
            report.failed.deep_view() == failures(self.recipients(), self.outcomes()),
    {
        proof {
            use_type_invariant(&self);
        }
        let mut failed: Vec<String> = Vec::new();
        let mut i: usize = 0;
        while i < self.outcomes.len()
            invariant
                i <= self.outcomes@.len() <= self.registry.order().len(),
                failed.deep_view() == failures(self.registry.order(), self.outcomes@.take(i as int)),
            decreases self.outcomes@.len() - i,
        {
            let ghost earlier = failed.deep_view();
            assert(self.outcomes@.take(i + 1).drop_last() == self.outcomes@.take(i as int));
            if !self.outcomes[i] {
                match self.registry.entry_at(i) {
                    Some((identity, _)) => {
                        failed.push(identity.clone());
                        assert(failed.deep_view() == earlier.push(identity@));
                    },
                    None => {},
                }
            }
            i += 1;
        }
        assert(self.outcomes@.take(i as int) == self.outcomes@);
        BroadcastReport { acknowledgement: self.message, failed }
    }
}

impl<C> Registry<C> {
    /// Starts the broadcast of `message` to everybody who is registered.
    pub fn broadcast(&self, message: Message) -> (fan_out: FanOut<'_, C>)
        ensures
            fan_out.recipients() == self.order(),
            fan_out.channels() == self@,
            fan_out.message() == message,
            fan_out.outcomes() == Seq::<bool>::empty(),
    {
        FanOut { registry: self, message, outcomes: Vec::new() }
    }
}

/// A recipient is reported as failed exactly when a delivery to it failed:
/// no other delivery's outcome adds it to the report or keeps it out.
pub proof fn lemma_failures_are_isolated(
    recipients: Seq<Seq<char>>,
    outcomes: Seq<bool>,
    identity: Seq<char>,
)
    ensures
        failures(recipients, outcomes).contains(identity) <==> exists|k: int|
            0 <= k < outcomes.len() && recipients[k] == identity && !outcomes[k],
    decreases outcomes.len(),
{
    if outcomes.len() > 0 {
        let last = outcomes.len() - 1;
        let before = outcomes.drop_last();
        let earlier = failures(recipients, before);
        lemma_failures_are_isolated(recipients, before, identity);
        let reported = failures(recipients, outcomes);
        if reported.contains(identity) {
            let j = reported.index_of(identity);
            if j < earlier.len() {
                assert(earlier[j] == identity);
                let k = choose|k: int|
                    0 <= k < before.len() && recipients[k] == identity && !before[k];
                assert(!outcomes[k]);
            } else {
                assert(!outcomes[last]);
            }
        }
        if exists|k: int| 0 <= k < outcomes.len() && recipients[k] == identity && !outcomes[k] {
            let k = choose|k: int|
                0 <= k < outcomes.len() && recipients[k] == identity && !outcomes[k];
            if k < last {
                assert(!before[k]);
                let j = earlier.index_of(identity);
                assert(reported[j] == identity);
            } else {
                assert(reported[reported.len() - 1] == identity);
            }
        }
    }
}

/// While an identity is registered, it stands at exactly one place of the
/// serving order: a broadcast makes one delivery to it, whatever becomes of
/// the deliveries to others.
pub proof fn lemma_registered_is_served_once<C>(registry: Registry<C>, identity: Seq<char>)
    requires
        registry.consistent(),
        registry@.contains_key(identity),
    ensures
        exists|k: int|
            {
                &&& 0 <= k < registry.order().len()
                &&& #[trigger] registry.order()[k] == identity
                &&& forall|j: int|
                    0 <= j < registry.order().len() && registry.order()[j] == identity ==> j == k
            },
{
    assert(registry.order().to_set().contains(identity));
    let k = registry.order().index_of(identity);
    assert(registry.order()[k] == identity);
}

} // verus!
