//! The oracle registry: the current oracle set, replaced only with a quorum
//! of the current consuls and once per round, and the feed subscriptions.

use vstd::prelude::*;
use crate::bytes::{
    append_bytes,
    append_u64_le,
    contains_word,
    copy_words,
    flatten,
    flatten_words,
    le_bytes,
    position,
    words_equal,
};
use crate::crypto::{keccak256, keccak256_of};
use crate::gravity::Gravity;
use crate::quorum::{attested_count, count_attested, signatures_well_formed};

verus! {

/// Why the oracle registry refuses a call.
#[derive(Debug, PartialEq, Eq, Clone, Copy, Structural)]
pub enum Error {
    InvalidRequest,
    NotFound,
    RoundAlreadyMutated,
    TokenError,
    ConculsReduce,
    SubscriberIdExists,
}

/// The kind of data a feed carries.
#[derive(Debug, PartialEq, Eq, Clone, Copy, Structural)]
pub enum DataType {
    Int64,
    Str,
    Bytes,
}

/// A subscription to the feed.
#[derive(Debug, PartialEq, Eq, Clone, Copy)]
pub struct Subscription {
    pub owner: [u8; 32],
    pub contact_address: [u8; 32],
    pub minimal_comformations: u64,
    pub reward: [u8; 32],
}

/// The digest that the consuls sign for an oracle rotation: Keccak-256 over
/// every new oracle in order. The round is not part of it.
pub open spec fn oracles_digest(new_oracles: Seq<[u8; 32]>) -> Seq<u8> {
    keccak256_of(flatten(new_oracles))
}

/// The bytes that a subscription id is derived from: the selector of the
/// call, the caller, the contact address and the minimal number of
/// confirmations in 8 bytes, least significant first.
pub open spec fn subscriber_preimage(
    selector: [u8; 4],
    caller: [u8; 32],
    contact_address: [u8; 32],
    minimal_comformations: u64,
) -> Seq<u8> {
    selector@ + caller@ + contact_address@ + le_bytes(minimal_comformations as nat, 8)
}

/// What an oracle rotation returns: a round that was consumed before is
/// refused, then a count below the threshold.
pub open spec fn rotation_result(consumed: bool, count: nat, threshold: u128) -> Result<(), Error> {
    if consumed {
        Err(Error::RoundAlreadyMutated)
    } else if count < threshold {
        Err(Error::ConculsReduce)
    } else {
        Ok(())
    }
}

/// The oracle registry.
pub struct Nebula {
    gravity_contract: [u8; 32],
    benefitial_value: u128,
    oracles: Vec<[u8; 32]>,
    data_type: DataType,
    round_mutated: Vec<[u8; 32]>,
    oracles_queue: Vec<[u8; 32]>,
    subscribers_queue: Vec<[u8; 32]>,
    pulses_queue: Vec<[u8; 32]>,
    subscription_ids: Vec<[u8; 32]>,
    subscriptions: Vec<Subscription>,
}

impl Nebula {
    /// The account of the consul registry.
    pub closed spec fn gravity_account(&self) -> [u8; 32] {
        self.gravity_contract
    }

    /// The kind of data the feed carries.
    pub closed spec fn feed_type(&self) -> DataType {
        self.data_type
    }

    /// The minimum number of attesting signatures.
    pub closed spec fn threshold(&self) -> u128 {
        self.benefitial_value
    }

    /// The current oracle set.
    pub closed spec fn oracle_set(&self) -> Seq<[u8; 32]> {
        self.oracles@
    }

    /// Whether a rotation was accepted for `round_id` before.
    pub closed spec fn round_consumed(&self, round_id: [u8; 32]) -> bool {
        self.round_mutated@.contains(round_id)
    }

    /// The subscription recorded under `id`.
    pub closed spec fn subscription(&self, id: [u8; 32]) -> Option<Subscription> {
        if self.subscription_ids@.contains(id) {
            Some(self.subscriptions@[position(self.subscription_ids@, id)])
        } else {
            None
        }
    }

    /// The three queues, which no operation fills.
    pub closed spec fn queues(&self) -> (Seq<[u8; 32]>, Seq<[u8; 32]>, Seq<[u8; 32]>) {
        (self.oracles_queue@, self.subscribers_queue@, self.pulses_queue@)
    }

    /// Each subscription id is listed once, with one subscription.
    pub closed spec fn wf(&self) -> bool {
        &&& self.subscription_ids@.len() == self.subscriptions@.len()
        &&& self.subscription_ids@.no_duplicates()
    }

    /// The configuration and the queues are those of `before`.
    pub open spec fn same_setup(&self, before: Nebula) -> bool {
        &&& self.gravity_account() == before.gravity_account()
        &&& self.feed_type() == before.feed_type()
        &&& self.threshold() == before.threshold()
        &&& self.queues() == before.queues()
    }

    /// The oracle set and the consumed rounds are those of `before`.
    pub open spec fn same_oracles(&self, before: Nebula) -> bool {
        &&& self.oracle_set() == before.oracle_set()
        &&& forall|round: [u8; 32]| self.round_consumed(round) == before.round_consumed(round)
    }

    /// The subscriptions are those of `before`.
    pub open spec fn same_subscriptions(&self, before: Nebula) -> bool {
        forall|id: [u8; 32]| self.subscription(id) == before.subscription(id)
    }

    /// The registry after a rotation to `new_oracles` was accepted for
    /// `round_id`: the set is replaced wholesale and the round is consumed.
    pub open spec fn rotated_to(&self, before: Nebula, new_oracles: Seq<[u8; 32]>, round_id: [u8; 32]) -> bool {
        &&& self.oracle_set() == new_oracles
        &&& forall|round: [u8; 32]|
            self.round_consumed(round) == (round == round_id || before.round_consumed(round))
    }

    /// A registry with the given oracles, no consumed round and no
    /// subscription.
    pub fn new(data_type: DataType, gravity_contract: [u8; 32], benefitial_value: u128, oracles: Vec<[u8; 32]>) -> (out: Self)
        ensures
            out.wf(),
            out.feed_type() == data_type,
            out.gravity_account() == gravity_contract,
            out.threshold() == benefitial_value,
            out.oracle_set() == oracles@,
            out.queues() == (
                Seq::<[u8; 32]>::empty(),
                Seq::<[u8; 32]>::empty(),
                Seq::<[u8; 32]>::empty(),
            ),
            forall|round: [u8; 32]| !out.round_consumed(round),
            forall|id: [u8; 32]| out.subscription(id) is None,
    {
        Nebula {
            data_type,
            benefitial_value,
            oracles,
            gravity_contract,
            round_mutated: Vec::new(),
            subscribers_queue: Vec::new(),
            oracles_queue: Vec::new(),
            pulses_queue: Vec::new(),
            subscription_ids: Vec::new(),
            subscriptions: Vec::new(),
        }
    }

    /// The digest over a proposed oracle set.
    pub fn hash_new_oracles(&self, new_oracles: Vec<[u8; 32]>) -> (out: [u8; 32])
        ensures
            out@ == oracles_digest(new_oracles@),
    {
        let data = flatten_words(&new_oracles);
        keccak256(&data)
    }

    /// The current oracle set.
    pub fn get_oracles(&self) -> (out: Vec<[u8; 32]>)
        ensures
            out@ == self.oracle_set(),
    {
        copy_words(&self.oracles)
    }

    /// Whether a rotation was accepted for `round_id` before.
    pub fn is_round_mutated(&self, round_id: [u8; 32]) -> (out: bool)
        ensures
            out == self.round_consumed(round_id),
    {
        contains_word(&self.round_mutated, &round_id)
    }

    /// Replaces the oracle set for a round that was not consumed before,
    /// given the number of consuls that attested the rotation. A refused
    /// rotation changes nothing.
    pub fn apply_rotation(&mut self, new_oracles: Vec<[u8; 32]>, round_id: [u8; 32], count: u128) -> (out: Result<(), Error>)
        requires
            old(self).wf(),
        ensures
            final(self).wf(),
            final(self).same_setup(*old(self)),
            final(self).same_subscriptions(*old(self)),
            out == rotation_result(
                old(self).round_consumed(round_id),
                count as nat,
                old(self).threshold(),
            ),
            out is Ok ==> final(self).rotated_to(*old(self), new_oracles@, round_id),
            out is Err ==> final(self).same_oracles(*old(self)),
    {
        if contains_word(&self.round_mutated, &round_id) {
            return Err(Error::RoundAlreadyMutated);
        }
        if count < self.benefitial_value {
            return Err(Error::ConculsReduce);
        }
        let ghost before = self.round_mutated@;
        self.oracles = new_oracles;
        self.round_mutated.push(round_id);
        proof {
            assert(self.round_mutated@ == before.push(round_id));
            assert forall|round: [u8; 32]| self.round_consumed(round) == (round == round_id
                || old(self).round_consumed(round)) by {
                if round == round_id {
                    assert(self.round_mutated@[before.len() as int] == round);
                } else if before.contains(round) {
                    let j = position(before, round);
                    assert(self.round_mutated@[j] == round);
                } else if self.round_mutated@.contains(round) {
                    let k = position(self.round_mutated@, round);
                    assert(before[k] == round);
                }
            }
        }
        Ok(())
    }

    /// Rotates the oracle set. A round that was consumed before is refused
    /// with `RoundAlreadyMutated`. Otherwise each current consul of `gravity`
    /// is compared with the signer of the signature at its own position over
    /// the digest of `new_oracles`; with fewer matches than the threshold the
    /// rotation is refused with `ConculsReduce`. An accepted rotation
    /// replaces the oracle set and consumes the round; a refused one changes
    /// nothing.
    pub fn update_oracles(
        &mut self,
        gravity: &Gravity,
        new_oracles: Vec<[u8; 32]>,
        v: Vec<u64>,
        r: Vec<[u8; 32]>,
        s: Vec<[u8; 32]>,
        round_id: [u8; 32],
    ) -> (out: Result<(), Error>)
        requires
            old(self).wf(),
            !old(self).round_consumed(round_id) ==> signatures_well_formed(
                oracles_digest(new_oracles@),
                gravity.consuls_at(gravity.latest_round()).len() as int,
                v@,
                r@,
                s@,
            ),
        ensures
            final(self).wf(),
            final(self).same_setup(*old(self)),
            final(self).same_subscriptions(*old(self)),
            out == rotation_result(
                old(self).round_consumed(round_id),
                attested_count(
                    oracles_digest(new_oracles@),
                    gravity.consuls_at(gravity.latest_round()),
                    v@,
                    r@,
                    s@,
                    gravity.consuls_at(gravity.latest_round()).len() as int,
                ),
                old(self).threshold(),
            ),
            out is Ok ==> final(self).rotated_to(*old(self), new_oracles@, round_id),
            out is Err ==> final(self).same_oracles(*old(self)),
    {
        if contains_word(&self.round_mutated, &round_id) {
            return Err(Error::RoundAlreadyMutated);
        }
        let data = flatten_words(&new_oracles);
        let digest = keccak256(&data);
        let consuls = gravity.get_consuls();
        match count_attested(&digest, &consuls, &v, &r, &s) {
            Some(count) => self.apply_rotation(new_oracles, round_id, count),
            None => Err(Error::ConculsReduce),
        }
    }

    /// As `update_oracles`, for signatures that nobody has looked at yet:
    /// where the round was not consumed and one of the signatures that the
    /// rotation reads is missing or malformed, nothing changes and the result
    /// is `None`; otherwise it is what `update_oracles` returns.
    pub fn try_update_oracles(
        &mut self,
        gravity: &Gravity,
        new_oracles: Vec<[u8; 32]>,
        v: Vec<u64>,
        r: Vec<[u8; 32]>,
        s: Vec<[u8; 32]>,
        round_id: [u8; 32],
    ) -> (out: Option<Result<(), Error>>)
        requires
            old(self).wf(),
        ensures
            final(self).wf(),
            final(self).same_setup(*old(self)),
            final(self).same_subscriptions(*old(self)),
            out is Some <==> (!old(self).round_consumed(round_id) ==> signatures_well_formed(
                oracles_digest(new_oracles@),
                gravity.consuls_at(gravity.latest_round()).len() as int,
                v@,
                r@,
                s@,
            )),
            out matches Some(result) ==> result == rotation_result(
                old(self).round_consumed(round_id),
                attested_count(
                    oracles_digest(new_oracles@),
                    gravity.consuls_at(gravity.latest_round()),
                    v@,
                    r@,
                    s@,
                    gravity.consuls_at(gravity.latest_round()).len() as int,
                ),
                old(self).threshold(),
            ),
            out == Some(Ok::<(), Error>(())) ==> final(self).rotated_to(
                *old(self),
                new_oracles@,
                round_id,
            ),
            out != Some(Ok::<(), Error>(())) ==> final(self).same_oracles(*old(self)),
    {
        if !contains_word(&self.round_mutated, &round_id) {
            let data = flatten_words(&new_oracles);
            let digest = keccak256(&data);
            let consuls = gravity.get_consuls();
            if count_attested(&digest, &consuls, &v, &r, &s).is_none() {
                return None;
            }
        }
        Some(self.update_oracles(gravity, new_oracles, v, r, s, round_id))
    }

    /// The id of the subscription that `caller` makes through the call with
    /// the selector `selector`: the Keccak-256 digest of the selector, the
    /// caller, the contact address and the minimal number of confirmations.
    pub fn get_subscriber_id(&self, selector: [u8; 4], caller: [u8; 32], contact_address: [u8; 32], minimal_comformations: u64) -> (out: [u8; 32])
        ensures
            out@ == keccak256_of(
                subscriber_preimage(selector, caller, contact_address, minimal_comformations),
            ),
    {
        let mut data: Vec<u8> = Vec::new();
        append_bytes(&mut data, selector.as_slice());
        append_bytes(&mut data, caller.as_slice());
        append_bytes(&mut data, contact_address.as_slice());
        append_u64_le(&mut data, minimal_comformations);
        assert(data@ =~= subscriber_preimage(
            selector,
            caller,
            contact_address,
            minimal_comformations,
        ));
        keccak256(&data)
    }

    /// Records `subscription` under `id` where the id is free; a taken id is
    /// refused with `SubscriberIdExists` and nothing changes.
    pub fn register_subscription(&mut self, id: [u8; 32], subscription: Subscription) -> (out: Result<(), Error>)
        requires
            old(self).wf(),
        ensures
            final(self).wf(),
            final(self).same_setup(*old(self)),
            final(self).same_oracles(*old(self)),
            old(self).subscription(id) is Some ==> out == Err::<(), Error>(
                Error::SubscriberIdExists,
            ) && final(self).same_subscriptions(*old(self)),
            old(self).subscription(id) is None ==> out is Ok && final(self).subscription(id)
                == Some(subscription) && forall|other: [u8; 32]|
                other != id ==> final(self).subscription(other) == old(self).subscription(other),
    {
        if contains_word(&self.subscription_ids, &id) {
            return Err(Error::SubscriberIdExists);
        }
        let ghost before = self.subscription_ids@;
        self.subscription_ids.push(id);
        self.subscriptions.push(subscription);
        proof {
            let last = before.len() as int;
            assert(self.subscription_ids@[last] == id);
            assert(self.subscription_ids@.contains(id));
            assert(position(self.subscription_ids@, id) == last);
            assert forall|other: [u8; 32]| other != id implies self.subscription(other) == old(self).subscription(other) by {
                if before.contains(other) {
                    let j = position(before, other);
                    assert(self.subscription_ids@[j] == other);
                    let k = position(self.subscription_ids@, other);
                    assert(k == j);
                } else if self.subscription_ids@.contains(other) {
                    let k = position(self.subscription_ids@, other);
                    assert(before[k] == other);
                }
            }
        }
        Ok(())
    }

    /// The subscription recorded under `id`.
    pub fn get_subscription(&self, id: [u8; 32]) -> (out: Option<Subscription>)
        requires
            self.wf(),
        ensures
            out == self.subscription(id),
    {
        let mut i: usize = 0;
        while i < self.subscription_ids.len()
            invariant
                self.wf(),
                i <= self.subscription_ids@.len(),
                forall|j: int| 0 <= j < i ==> self.subscription_ids@[j] != id,
            decreases self.subscription_ids.len() - i,
        {
            if words_equal(&self.subscription_ids[i], &id) {
                proof {
                    let at = i as int;
                    assert(self.subscription_ids@[at] == id);
                    assert(position(self.subscription_ids@, id) == at);
                }
                return Some(self.subscriptions[i]);
            }
            i += 1;
        }
        None
    }

    /// Subscribes `caller` to the feed, under the id derived from the call's
    /// selector, the caller, the contact address and the minimal number of
    /// confirmations. A second subscription with the same id is refused with
    /// `SubscriberIdExists`, and the first stays as it is.
    pub fn subscribe(
        &mut self,
        selector: [u8; 4],
        caller: [u8; 32],
        contact_address: [u8; 32],
        minimal_comformations: u64,
        reward: [u8; 32],
    ) -> (out: Result<(), Error>)
        requires
            old(self).wf(),
        ensures
            final(self).wf(),
            final(self).same_setup(*old(self)),
            final(self).same_oracles(*old(self)),
            forall|id: [u8; 32]|
                id@ == keccak256_of(
                    subscriber_preimage(selector, caller, contact_address, minimal_comformations),
                ) ==> {
                    &&& old(self).subscription(id) is Some ==> out == Err::<(), Error>(
                        Error::SubscriberIdExists,
                    ) && final(self).same_subscriptions(*old(self))
                    &&& old(self).subscription(id) is None ==> out is Ok && final(self).subscription(id) == Some(
                        Subscription {
                            owner: caller,
                            contact_address,
                            minimal_comformations,
                            reward,
                        },
                    ) && forall|other: [u8; 32]|
                        other != id ==> final(self).subscription(other) == old(self).subscription(
                            other,
                        )
                },
    {
        let new_sub_id = self.get_subscriber_id(
            selector,
            caller,
            contact_address,
            minimal_comformations,
        );
        let out = self.register_subscription(
            new_sub_id,
            Subscription { owner: caller, contact_address, minimal_comformations, reward },
        );
        proof {
            assert forall|id: [u8; 32]|
                id@ == keccak256_of(
                    subscriber_preimage(selector, caller, contact_address, minimal_comformations),
                ) implies id == new_sub_id by {
                assert(id =~= new_sub_id);
            }
        }
        out
    }
}

/// A round that an accepted rotation consumed is refused from then on,
/// whatever the signatures say, so a second rotation for it leaves the
/// oracle set as the first made it.
pub proof fn consumed_round_is_refused(
    before: Nebula,
    after: Nebula,
    new_oracles: Seq<[u8; 32]>,
    round_id: [u8; 32],
    count: nat,
)
    requires
        after.rotated_to(before, new_oracles, round_id),
    ensures
        after.round_consumed(round_id),
        rotation_result(after.round_consumed(round_id), count, after.threshold()) == Err::<
            (),
            Error,
        >(Error::RoundAlreadyMutated),
{
}

/// A rotation for a fresh round is accepted exactly when the count of
/// attesting consuls reaches the threshold, and is refused with
/// `ConculsReduce` below it.
pub proof fn rotation_needs_quorum(count: nat, threshold: u128)
    ensures
        rotation_result(false, count, threshold) is Ok <==> count >= threshold,
        count < threshold ==> rotation_result(false, count, threshold) == Err::<(), Error>(
            Error::ConculsReduce,
        ),
{
}

} // verus!
