//! The consul registry: the validator sets by round, each accepted only with
//! a quorum of signatures and only for a round after the last accepted one.

use vstd::prelude::*;
use crate::bytes::{
    append_bytes,
    copy_words,
    flatten,
    flatten_words,
    lex_lt,
    word_after,
    words_equal,
};
use crate::crypto::{keccak256, keccak256_of};
use crate::quorum::{attested_count, count_attested, signatures_well_formed};

verus! {

/// The consul set accepted for one round.
pub struct RoundEntry {
    pub round: [u8; 32],
    pub consuls: Vec<[u8; 32]>,
}

/// The set stored for `round` in a history of accepted rounds: that of the
/// latest entry for the round, or the empty set.
pub open spec fn stored_set(entries: Seq<RoundEntry>, round: [u8; 32]) -> Seq<[u8; 32]>
    decreases entries.len(),
{
    if entries.len() == 0 {
        Seq::empty()
    } else if entries.last().round == round {
        entries.last().consuls@
    } else {
        stored_set(entries.drop_last(), round)
    }
}

/// The digest that the signers of a consul rotation sign: Keccak-256 over
/// every new consul in order, followed by the round identifier.
pub open spec fn consuls_digest(new_consuls: Seq<[u8; 32]>, round_id: [u8; 32]) -> Seq<u8> {
    keccak256_of(flatten(new_consuls) + round_id@)
}

/// The consul registry: the consul set of every accepted round, the
/// threshold of attesting signatures, and the last accepted round.
pub struct Gravity {
    consuls_by_rounds: Vec<RoundEntry>,
    benefitial_value: u128,
    last_round: [u8; 32],
}

impl Gravity {
    /// The accepted rounds, oldest first.
    pub closed spec fn history(&self) -> Seq<RoundEntry> {
        self.consuls_by_rounds@
    }

    /// The minimum number of attesting signatures.
    pub closed spec fn threshold(&self) -> u128 {
        self.benefitial_value
    }

    /// The last accepted round.
    pub closed spec fn latest_round(&self) -> [u8; 32] {
        self.last_round
    }

    /// The consul set stored for `round`, empty where there is none.
    pub open spec fn consuls_at(&self, round: [u8; 32]) -> Seq<[u8; 32]> {
        stored_set(self.history(), round)
    }

    /// The history is not empty, ends with the last accepted round, and each
    /// of its rounds comes strictly after the one before it.
    pub open spec fn wf(&self) -> bool {
        &&& self.history().len() > 0
        &&& self.history().last().round == self.latest_round()
        &&& forall|i: int|
            0 <= i < self.history().len() - 1 ==> lex_lt(
                (#[trigger] self.history()[i]).round@,
                self.history()[i + 1].round@,
            )
    }

    /// Whether a rotation to `round_id` with `count` attesting signatures is
    /// accepted: the round comes strictly after the last accepted one and the
    /// count reaches the threshold.
    pub open spec fn accepts(&self, round_id: [u8; 32], count: nat) -> bool {
        lex_lt(self.latest_round()@, round_id@) && count >= self.threshold()
    }

    /// The registry after `new_consuls` was stored for `round_id`.
    pub open spec fn rotated_to(&self, before: Gravity, new_consuls: Seq<[u8; 32]>, round_id: [u8; 32]) -> bool {
        &&& self.threshold() == before.threshold()
        &&& self.latest_round() == round_id
        &&& self.history() == before.history().push(self.history().last())
        &&& self.history().last().round == round_id
        &&& self.history().last().consuls@ == new_consuls
    }

    /// A registry whose round zero holds `consuls`.
    pub fn new(consuls: Vec<[u8; 32]>, benefitial_value: u128) -> (out: Self)
        ensures
            out.wf(),
            out.threshold() == benefitial_value,
            out.latest_round()@ == Seq::new(32, |i: int| 0u8),
            out.history().len() == 1,
            out.consuls_at(out.latest_round()) == consuls@,
            forall|round: [u8; 32]|
                round != out.latest_round() ==> out.consuls_at(round) == Seq::<[u8; 32]>::empty(),
    {
        let zero: [u8; 32] = [0u8; 32];
        let mut entries: Vec<RoundEntry> = Vec::new();
        entries.push(RoundEntry { round: zero, consuls });
        let out = Gravity { consuls_by_rounds: entries, benefitial_value, last_round: zero };
        proof {
            assert(zero@ =~= Seq::new(32, |i: int| 0u8));
            assert(out.history().drop_last() =~= Seq::<RoundEntry>::empty());
            assert forall|round: [u8; 32]| round != out.latest_round() implies out.consuls_at(
                round,
            ) == Seq::<[u8; 32]>::empty() by {
                assert(stored_set(out.history().drop_last(), round) == Seq::<[u8; 32]>::empty());
            }
        }
        out
    }

    /// The digest over a proposed consul set and its round.
    pub fn hash_new_consuls(&self, new_consuls: Vec<[u8; 32]>, round_id: [u8; 32]) -> (out: [u8; 32])
        ensures
            out@ == consuls_digest(new_consuls@, round_id),
    {
        let mut data = flatten_words(&new_consuls);
        append_bytes(&mut data, round_id.as_slice());
        keccak256(&data)
    }

    /// The last accepted round.
    pub fn last_round(&self) -> (out: [u8; 32])
        ensures
            out == self.latest_round(),
    {
        self.last_round
    }

    /// Stores `new_consuls` for `round_id` where the round comes strictly
    /// after the last accepted one and `count` reaches the threshold, and
    /// says whether it did. Otherwise the registry stays as it is.
    pub fn apply_rotation(&mut self, new_consuls: Vec<[u8; 32]>, round_id: [u8; 32], count: u128) -> (accepted: bool)
        requires
            old(self).wf(),
        ensures
            final(self).wf(),
            accepted == old(self).accepts(round_id, count as nat),
            accepted ==> final(self).rotated_to(*old(self), new_consuls@, round_id),
            !accepted ==> *final(self) == *old(self),
    {
        if !word_after(&round_id, &self.last_round) {
            return false;
        }
        if count < self.benefitial_value {
            return false;
        }
        let ghost before = self.consuls_by_rounds@;
        self.consuls_by_rounds.push(RoundEntry { round: round_id, consuls: new_consuls });
        self.last_round = round_id;
        proof {
            assert forall|i: int| 0 <= i < self.history().len() - 1 implies lex_lt(
                (#[trigger] self.history()[i]).round@,
                self.history()[i + 1].round@,
            ) by {
                if i < before.len() - 1 {
                    assert(self.history()[i] == before[i]);
                    assert(self.history()[i + 1] == before[i + 1]);
                }
            }
        }
        true
    }

    /// Rotates the consul set: where `round_id` comes strictly after the last
    /// accepted round and at least the threshold of the new consuls have
    /// signed the digest of the rotation themselves, `new_consuls` is stored
    /// for `round_id`. Otherwise nothing changes.
    pub fn update_consuls(
        &mut self,
        new_consuls: Vec<[u8; 32]>,
        v: Vec<u64>,
        r: Vec<[u8; 32]>,
        s: Vec<[u8; 32]>,
        round_id: [u8; 32],
    )
        requires
            old(self).wf(),
            lex_lt(old(self).latest_round()@, round_id@) ==> signatures_well_formed(
                consuls_digest(new_consuls@, round_id),
                new_consuls@.len() as int,
                v@,
                r@,
                s@,
            ),
        ensures
            final(self).wf(),
            old(self).accepts(
                round_id,
                attested_count(
                    consuls_digest(new_consuls@, round_id),
                    new_consuls@,
                    v@,
                    r@,
                    s@,
                    new_consuls@.len() as int,
                ),
            ) ==> final(self).rotated_to(*old(self), new_consuls@, round_id),
            !old(self).accepts(
                round_id,
                attested_count(
                    consuls_digest(new_consuls@, round_id),
                    new_consuls@,
                    v@,
                    r@,
                    s@,
                    new_consuls@.len() as int,
                ),
            ) ==> *final(self) == *old(self),
    {
        if !word_after(&round_id, &self.last_round) {
            return ;
        }
        let mut data = flatten_words(&new_consuls);
        append_bytes(&mut data, round_id.as_slice());
        let digest = keccak256(&data);
        match count_attested(&digest, &new_consuls, &v, &r, &s) {
            Some(count) => {
                self.apply_rotation(new_consuls, round_id, count);
            },
            None => {},
        }
    }

    /// As `update_consuls`, for signatures that nobody has looked at yet:
    /// where the round is fresh and one of the signatures that the rotation
    /// reads is missing or malformed, nothing changes and the result is
    /// `false`; otherwise the rotation is attempted and the result is `true`.
    pub fn try_update_consuls(
        &mut self,
        new_consuls: Vec<[u8; 32]>,
        v: Vec<u64>,
        r: Vec<[u8; 32]>,
        s: Vec<[u8; 32]>,
        round_id: [u8; 32],
    ) -> (attempted: bool)
        requires
            old(self).wf(),
        ensures
            final(self).wf(),
            attempted == (lex_lt(old(self).latest_round()@, round_id@) ==> signatures_well_formed(
                consuls_digest(new_consuls@, round_id),
                new_consuls@.len() as int,
                v@,
                r@,
                s@,
            )),
            attempted && old(self).accepts(
                round_id,
                attested_count(
                    consuls_digest(new_consuls@, round_id),
                    new_consuls@,
                    v@,
                    r@,
                    s@,
                    new_consuls@.len() as int,
                ),
            ) ==> final(self).rotated_to(*old(self), new_consuls@, round_id),
            !(attempted && old(self).accepts(
                round_id,
                attested_count(
                    consuls_digest(new_consuls@, round_id),
                    new_consuls@,
                    v@,
                    r@,
                    s@,
                    new_consuls@.len() as int,
                ),
            )) ==> *final(self) == *old(self),
    {
        if word_after(&round_id, &self.last_round) {
            let mut data = flatten_words(&new_consuls);
            append_bytes(&mut data, round_id.as_slice());
            let digest = keccak256(&data);
            if count_attested(&digest, &new_consuls, &v, &r, &s).is_none() {
                return false;
            }
        }
        self.update_consuls(new_consuls, v, r, s, round_id);
        true
    }

    /// The consul set of the last accepted round.
    pub fn get_consuls(&self) -> (out: Vec<[u8; 32]>)
        ensures
            out@ == self.consuls_at(self.latest_round()),
    {
        self.get_consuls_by_round_id(self.last_round)
    }

    /// The consul set stored for `round_id`, empty where there is none.
    pub fn get_consuls_by_round_id(&self, round_id: [u8; 32]) -> (out: Vec<[u8; 32]>)
        ensures
            out@ == self.consuls_at(round_id),
    {
        let mut i: usize = self.consuls_by_rounds.len();
        assert(self.history().take(i as int) =~= self.history());
        while i > 0
            invariant
                i <= self.consuls_by_rounds@.len(),
                self.consuls_at(round_id) == stored_set(self.history().take(i as int), round_id),
            decreases i,
        {
            i -= 1;
            proof {
                assert(self.history().take(i + 1).drop_last() =~= self.history().take(i as int));
                assert(self.history().take(i + 1).last() == self.history()[i as int]);
            }
            if words_equal(&self.consuls_by_rounds[i].round, &round_id) {
                return copy_words(&self.consuls_by_rounds[i].consuls);
            }
        }
        Vec::new()
    }
}

/// A rotation to a round that does not come strictly after the last accepted
/// one changes neither the stored sets nor the last accepted round, whatever
/// the signatures say.
pub proof fn stale_round_changes_nothing(before: Gravity, after: Gravity, new_consuls: Seq<[u8; 32]>, round_id: [u8; 32], count: nat)
    requires
        !lex_lt(before.latest_round()@, round_id@),
        before.accepts(round_id, count) ==> after.rotated_to(before, new_consuls, round_id),
        !before.accepts(round_id, count) ==> after == before,
    ensures
        after.latest_round() == before.latest_round(),
        forall|round: [u8; 32]| after.consuls_at(round) == before.consuls_at(round),
{
}

/// An accepted rotation stores the new set for its round, makes that round
/// the last accepted one, and leaves the set of every other round as it was.
pub proof fn accepted_rotation_stores(before: Gravity, after: Gravity, new_consuls: Seq<[u8; 32]>, round_id: [u8; 32])
    requires
        after.rotated_to(before, new_consuls, round_id),
    ensures
        after.latest_round() == round_id,
        after.consuls_at(round_id) == new_consuls,
        forall|round: [u8; 32]| round != round_id ==> after.consuls_at(round) == before.consuls_at(round),
{
    assert(after.history().drop_last() =~= before.history());
}

/// A rotation is accepted exactly when its round comes strictly after the
/// last accepted one and the count of attesting signatures reaches the
/// threshold; below the threshold nothing is stored.
pub proof fn rotation_needs_quorum(
    before: Gravity,
    after: Gravity,
    new_consuls: Seq<[u8; 32]>,
    round_id: [u8; 32],
    count: nat,
)
    requires
        lex_lt(before.latest_round()@, round_id@),
        before.accepts(round_id, count) ==> after.rotated_to(before, new_consuls, round_id),
        !before.accepts(round_id, count) ==> after == before,
    ensures
        count >= before.threshold() ==> after.latest_round() == round_id && after.consuls_at(
            round_id,
        ) == new_consuls,
        count < before.threshold() ==> after == before,
{
    if count >= before.threshold() {
        accepted_rotation_stores(before, after, new_consuls, round_id);
    }
}

/// The last accepted round never goes back: after a rotation it is the
/// round it was, or one that comes strictly after it.
pub proof fn last_round_never_goes_back(
    before: Gravity,
    after: Gravity,
    new_consuls: Seq<[u8; 32]>,
    round_id: [u8; 32],
    count: nat,
)
    requires
        before.accepts(round_id, count) ==> after.rotated_to(before, new_consuls, round_id),
        !before.accepts(round_id, count) ==> after == before,
    ensures
        after.latest_round() == before.latest_round() || lex_lt(
            before.latest_round()@,
            after.latest_round()@,
        ),
{
}

} // verus!
