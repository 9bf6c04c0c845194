//! The bandit: a collection sharded over several arms, and the handles that use it.
use vstd::prelude::*;
use core::marker::PhantomData;

use crate::{
    Collection,
    Signature,
    components::PushPopCollection,
    storage::{OwnedStorage, StorageBackend},
    strategy::{Hooked, Strategy},
};

verus! {

/// A sensible capacity for each arm, for use as the `SUB_CAP` parameter of a bandit.
pub const DEFAULT_QUEUE_CAP: usize = 32;

/// Adds `values` with wrap-around, as the sum of an iterator does when
/// overflow checks are off.
pub open spec fn wrapping_total(values: Seq<usize>) -> usize
    decreases values.len(),
{
    if values.len() == 0 {
        0
    } else {
        let sum = wrapping_total(values.drop_last()) + values.last();
        if sum > usize::MAX {
            (sum - usize::MAX - 1) as usize
        } else {
            sum as usize
        }
    }
}

/// One offer through a handle: the gambler before the offer and once its
/// strategy chose, the arm pulled, what that arm's `offer` returned, and, when
/// the arm refused, what the strategy's fallback returned.
pub struct OfferRecord<G, O, E> {
    pub gambler_before: G,
    pub gambler_chosen: G,
    pub pulled: usize,
    pub first: Result<O, E>,
    pub fallback: Option<Result<(O, usize), E>>,
}

impl<G, O, E> OfferRecord<G, O, E> {
    /// What the offer hands back: the pulled arm's success and its index; or,
    /// when the arm refused, the item's placement by the fallback and the index
    /// of the arm that took it; or the fallback's error and the pulled arm's index.
    pub open spec fn outcome(self) -> (Result<O, E>, usize) {
        match self.first {
            Ok(out) => (Ok(out), self.pulled),
            Err(refusal) => match self.fallback {
                Some(Ok(placed)) => (Ok(placed.0), placed.1),
                Some(Err(e)) => (Err(e), self.pulled),
                None => (Err(refusal), self.pulled),
            },
        }
    }
}

/// One poll through a handle: the gambler before the poll and once its
/// strategy chose, the arm pulled, what that arm's `poll` returned, and, when
/// the poll failed, what the strategy's fallback returned.
pub struct PollRecord<G, O, E> {
    pub gambler_before: G,
    pub gambler_chosen: G,
    pub pulled: usize,
    pub first: Result<O, E>,
    pub fallback: Option<Option<(O, usize)>>,
}

impl<G, O, E> PollRecord<G, O, E> {
    /// What the poll hands back: the pulled arm's success and its index; or,
    /// when that poll failed, the fallback's item and the index of the arm it
    /// came from; or, when the fallback found nothing, the pulled arm's error
    /// and index.
    pub open spec fn outcome(self) -> (Result<O, E>, usize) {
        match self.first {
            Ok(out) => (Ok(out), self.pulled),
            Err(e) => match self.fallback {
                Some(Some(hit)) => (Ok(hit.0), hit.1),
                _ => (Err(e), self.pulled),
            },
        }
    }
}

/// A [`Bandit`] distributes accesses to the wrapped data structure across
/// several sub-collections ("arms"). Access is distributed according to the
/// [`Strategy`] `S` over the arms `B`, whose stakes are stored in `C`.
pub struct Bandit<Q, S, B, C, const SUB_CAP: usize> where
    Q: Collection,
    S: Strategy<Q>,
    B: StorageBackend<Q>,
    C: StorageBackend<<S::Gambler as Hooked>::Stake>,
 {
    strategy: S,
    sub_collections: B,
    collection_state: C,
    _p: PhantomData<Q>,
}

/// Every one of `values` is `c`.
pub open spec fn all_equal(values: Seq<usize>, c: usize) -> bool {
    forall|i: int| 0 <= i < values.len() ==> values[i] == c
}

/// When every value is `c` and the plain sum fits in a `usize`, the total is
/// the number of values times `c`: a bandit whose arms all report capacity `c`
/// has a total capacity that is a multiple of `c`.
pub proof fn lemma_total_of_uniform_values(values: Seq<usize>, c: usize)
    requires
        forall|i: int| 0 <= i < values.len() ==> values[i] == c,
        values.len() * c <= usize::MAX,
    ensures
        wrapping_total(values) == values.len() * c,
    decreases values.len(),
{
    if values.len() > 0 {
        let rest = values.drop_last();
        let n = rest.len();
        assert(values.len() * c == n * c + c) by (nonlinear_arith)
            requires
                values.len() == n + 1,
        ;
        assert(n * c <= values.len() * c) by (nonlinear_arith)
            requires
                values.len() == n + 1,
        ;
        lemma_total_of_uniform_values(rest, c);
    }
}

/// The wrap-around sum of `values`.
pub fn total(values: &Vec<usize>) -> (r: usize)
    ensures
        r == wrapping_total(values@),
{
    let mut acc: usize = 0;
    let mut i: usize = 0;
    while i < values.len()
        invariant
            i <= values.len(),
            acc == wrapping_total(values@.take(i as int)),
        decreases values.len() - i,
    {
        assert(values@.take(i + 1).drop_last() == values@.take(i as int));
        acc = acc.wrapping_add(values[i]);
        i = i + 1;
    }
    assert(values@.take(i as int) == values@);
    acc
}

impl<Q, S, B, C, const SUB_CAP: usize> Bandit<Q, S, B, C, SUB_CAP> where
    Q: Collection,
    S: Strategy<Q>,
    B: StorageBackend<Q>,
    C: StorageBackend<<S::Gambler as Hooked>::Stake>,
 {
    /// Every arm has a stake, there is at least one arm, and the strategy is usable.
    #[verifier::type_invariant]
    spec fn wf(self) -> bool {
        &&& self.sub_collections.spec_len() == self.collection_state.spec_len()
        &&& self.sub_collections.spec_len() > 0
        &&& S::configured()
    }

    /// The number of arms, as a mathematical value.
    pub closed spec fn spec_arm_count(&self) -> nat {
        self.sub_collections.spec_len()
    }

    /// The strategy that decides which arm is pulled.
    pub closed spec fn strategy(&self) -> S {
        self.strategy
    }

    /// The storage of the arms.
    pub closed spec fn arms(&self) -> B {
        self.sub_collections
    }

    /// The storage of the arms' stakes.
    pub closed spec fn stakes(&self) -> C {
        self.collection_state
    }

    /// `rec` records an offer of `item` on this bandit by a gambler in state
    /// `gambler`: the strategy chose the pulled arm by its rule, a fallback ran
    /// exactly when the pulled arm refused, the refusal is one the collection
    /// allows for `item`, a strategy that keeps refusals handed it back
    /// unchanged, and an arm the fallback placed the item in is an arm of this
    /// bandit.
    pub open spec fn records_offer(
        &self,
        gambler: S::Gambler,
        item: <Q::OfferSignature as Signature>::Input,
        rec: OfferRecord<S::Gambler, <Q::OfferSignature as Signature>::Output, <Q::OfferSignature as Signature>::Error>,
    ) -> bool {
        &&& rec.gambler_before == gambler
        &&& rec.pulled < self.spec_arm_count()
        &&& self.strategy().offer_choice(gambler, rec.gambler_chosen, self.spec_arm_count(), rec.pulled)
        &&& exists|arm: Q| #[trigger] self.arms().holds_at(rec.pulled as int, arm)
            && call_ensures(Q::offer, (&arm, item), rec.first)
        &&& (rec.first is Ok) == (rec.fallback is None)
        &&& (rec.first matches Err(refusal) ==> Q::refusal_of(item, refusal))
        &&& (S::keeps_refusals() ==> (rec.first matches Err(refusal) ==> rec.fallback == Some(
            Err::<(<Q::OfferSignature as Signature>::Output, usize), _>(refusal),
        )))
        &&& (rec.fallback matches Some(Ok(placed)) ==> placed.1 < self.spec_arm_count())
        &&& (<S::Gambler as Hooked>::hooks_reach_stake() ==> match rec.first {
            Ok(_) => self.hooked_offer_succ(rec.pulled as int),
            Err(_) => {
                &&& self.hooked_offer_fail(rec.pulled as int)
                &&& (rec.fallback matches Some(Ok(placed)) ==> self.hooked_offer_succ(placed.1 as int))
            },
        })
    }

    /// `rec` records a poll on this bandit by a gambler in state `gambler`:
    /// the strategy chose the pulled arm by its rule, a fallback ran exactly
    /// when the pulled arm's poll failed, and an arm the fallback took an item
    /// from is an arm of this bandit.
    pub open spec fn records_poll(
        &self,
        gambler: S::Gambler,
        input: <Q::PollSignature as Signature>::Input,
        rec: PollRecord<S::Gambler, <Q::PollSignature as Signature>::Output, <Q::PollSignature as Signature>::Error>,
    ) -> bool {
        &&& rec.gambler_before == gambler
        &&& rec.pulled < self.spec_arm_count()
        &&& self.strategy().poll_choice(gambler, rec.gambler_chosen, self.spec_arm_count(), rec.pulled)
        &&& crate::strategy::polled_arm::<Q, B>(self.arms(), rec.pulled as int, input, rec.first)
        &&& (rec.first is Ok) == (rec.fallback is None)
        &&& (S::scans_arms() ==> (rec.fallback matches Some(found) ==> exists|polled: Seq<
            Result<<Q::PollSignature as Signature>::Output, <Q::PollSignature as Signature>::Error>,
        >| #[trigger] crate::strategy::is_scan::<Q, B>(self.arms(), input, polled, found)))
        &&& (rec.fallback matches Some(Some(hit)) ==> hit.1 < self.spec_arm_count())
        &&& (<S::Gambler as Hooked>::hooks_reach_stake() ==> match rec.first {
            Ok(_) => self.hooked_poll_succ(rec.pulled as int),
            Err(_) => {
                &&& self.hooked_poll_fail(rec.pulled as int)
                &&& (rec.fallback matches Some(Some(hit)) ==> self.hooked_poll_succ(hit.1 as int))
            },
        })
    }

    /// The stake of arm `i` was given its [`Hook::on_offer_succ`](crate::strategy::Hook::on_offer_succ).
    pub open spec fn hooked_offer_succ(&self, i: int) -> bool {
        exists|stake: <S::Gambler as Hooked>::Stake| #[trigger] self.stakes().holds_at(i, stake)
            && call_ensures(<<S::Gambler as Hooked>::Stake as crate::strategy::Hook>::on_offer_succ, (&stake,), ())
    }

    /// The stake of arm `i` was given its [`Hook::on_offer_fail`](crate::strategy::Hook::on_offer_fail).
    pub open spec fn hooked_offer_fail(&self, i: int) -> bool {
        exists|stake: <S::Gambler as Hooked>::Stake| #[trigger] self.stakes().holds_at(i, stake)
            && call_ensures(<<S::Gambler as Hooked>::Stake as crate::strategy::Hook>::on_offer_fail, (&stake,), ())
    }

    /// The stake of arm `i` was given its [`Hook::on_poll_succ`](crate::strategy::Hook::on_poll_succ).
    pub open spec fn hooked_poll_succ(&self, i: int) -> bool {
        exists|stake: <S::Gambler as Hooked>::Stake| #[trigger] self.stakes().holds_at(i, stake)
            && call_ensures(<<S::Gambler as Hooked>::Stake as crate::strategy::Hook>::on_poll_succ, (&stake,), ())
    }

    /// The stake of arm `i` was given its [`Hook::on_poll_fail`](crate::strategy::Hook::on_poll_fail).
    pub open spec fn hooked_poll_fail(&self, i: int) -> bool {
        exists|stake: <S::Gambler as Hooked>::Stake| #[trigger] self.stakes().holds_at(i, stake)
            && call_ensures(<<S::Gambler as Hooked>::Stake as crate::strategy::Hook>::on_poll_fail, (&stake,), ())
    }

    /// `value` is what the arm in slot `i` reported from [`Collection::len`].
    pub open spec fn reported_len(&self, i: int, value: usize) -> bool {
        exists|arm: Q| #[trigger] self.arms().holds_at(i, arm) && call_ensures(Q::len, (&arm,), value)
    }

    /// `value` is what the arm in slot `i` reported from [`Collection::capacity`].
    pub open spec fn reported_capacity(&self, i: int, value: usize) -> bool {
        exists|arm: Q| #[trigger] self.arms().holds_at(i, arm) && call_ensures(Q::capacity, (&arm,), value)
    }

    /// A bandit over the arms `queues`, whose stakes are `states`.
    pub(crate) fn new_with(queues: B, states: C) -> (r: Self) where S: Default
        requires
            queues.spec_len() == states.spec_len(),
            queues.spec_len() > 0,
            S::configured(),
        ensures
            r.spec_arm_count() == queues.spec_len(),
            r.arms() == queues,
            r.stakes() == states,
            call_ensures(S::default, (), r.strategy()),
    {
        Bandit { strategy: S::default(), sub_collections: queues, collection_state: states, _p: PhantomData }
    }

    /// The number of arms.
    pub fn arm_count(&self) -> (r: usize)
        ensures
            r == self.spec_arm_count(),
            r > 0,
    {
        proof {
            use_type_invariant(self);
        }
        self.sub_collections.len()
    }

    /// Constructs a new handle to this bandit.
    ///
    /// This method should only be called once per thread pool; create more
    /// handles with [`BanditHandle::fork`].
    pub fn buy_in(&self) -> (r: BanditHandle<'_, Q, S, B, C, SUB_CAP>)
        ensures
            r.bandit() == *self,
            self.strategy().created(r.gambler()),
            r.last_offer() is None,
            r.last_poll() is None,
    {
        proof {
            use_type_invariant(self);
        }
        BanditHandle {
            parent: self,
            gambler: self.strategy.create_gambler(),
            last_offer: Ghost(None),
            last_poll: Ghost(None),
        }
    }
}

impl<Q, S, B, C, const SUB_CAP: usize> Bandit<Q, S, B, C, SUB_CAP> where
    Q: Collection,
    S: Strategy<Q>,
    B: OwnedStorage<Q>,
    C: StorageBackend<<S::Gambler as Hooked>::Stake>,
 {
    /// Consumes this bandit and hands out its arms in order.
    pub fn into_arms(self) -> (r: Vec<Q>)
        ensures
            r.len() == self.spec_arm_count(),
            forall|i: int| 0 <= i < r.len() ==> self.arms().holds_at(i, #[trigger] r@[i]),
    {
        self.sub_collections.into_vec()
    }
}

/// An owned handle into a bandit.
///
/// The handle offers to and polls from the arms that its gambler chooses.
pub struct BanditHandle<'a, Q, S, B, C, const SUB_CAP: usize> where
    Q: Collection,
    S: Strategy<Q>,
    B: StorageBackend<Q>,
    C: StorageBackend<<S::Gambler as Hooked>::Stake>,
 {
    parent: &'a Bandit<Q, S, B, C, SUB_CAP>,
    gambler: S::Gambler,
    last_offer: Ghost<Option<OfferRecord<S::Gambler, <Q::OfferSignature as Signature>::Output, <Q::OfferSignature as Signature>::Error>>>,
    last_poll: Ghost<Option<PollRecord<S::Gambler, <Q::PollSignature as Signature>::Output, <Q::PollSignature as Signature>::Error>>>,
}

impl<'a, Q, S, B, C, const SUB_CAP: usize> BanditHandle<'a, Q, S, B, C, SUB_CAP> where
    Q: Collection,
    S: Strategy<Q>,
    B: StorageBackend<Q>,
    C: StorageBackend<<S::Gambler as Hooked>::Stake>,
 {
    /// The bandit this handle belongs to.
    pub closed spec fn bandit(&self) -> Bandit<Q, S, B, C, SUB_CAP> {
        *self.parent
    }

    /// The gambler of this handle.
    pub closed spec fn gambler(&self) -> S::Gambler {
        self.gambler
    }

    /// The record of the last offer through this handle, if any.
    pub closed spec fn last_offer(&self) -> Option<
        OfferRecord<S::Gambler, <Q::OfferSignature as Signature>::Output, <Q::OfferSignature as Signature>::Error>,
    > {
        self.last_offer@
    }

    /// The record of the last poll through this handle, if any.
    pub closed spec fn last_poll(&self) -> Option<
        PollRecord<S::Gambler, <Q::PollSignature as Signature>::Output, <Q::PollSignature as Signature>::Error>,
    > {
        self.last_poll@
    }

    /// Forks this handle into a new one on the same bandit, whose gambler the
    /// strategy forks from this handle's gambler.
    pub fn fork(&self) -> (r: Self)
        ensures
            r.bandit() == self.bandit(),
            self.bandit().strategy().forked(self.gambler(), r.gambler()),
            r.last_offer() is None,
            r.last_poll() is None,
    {
        proof {
            use_type_invariant(self.parent);
        }
        BanditHandle {
            parent: self.parent,
            gambler: self.parent.strategy.fork_gambler(&self.gambler),
            last_offer: Ghost(None),
            last_poll: Ghost(None),
        }
    }

    /// Calls [`Collection::offer`] on the arm chosen by this handle's gambler.
    ///
    /// If the call fails, [`Strategy::on_offer_fail`] gets the chance to place the item elsewhere.
    pub fn offer(&mut self, item: <Q::OfferSignature as Signature>::Input) -> (r: Result<
        <Q::OfferSignature as Signature>::Output,
        <Q::OfferSignature as Signature>::Error,
    >)
        ensures
            final(self).bandit() == old(self).bandit(),
            final(self).last_poll() == old(self).last_poll(),
            final(self).last_offer() matches Some(rec) && old(self).bandit().records_offer(old(self).gambler(), item, rec)
                && r == rec.outcome().0
                && (<S::Gambler as Hooked>::hooks_keep_gambler() ==> final(self).gambler() == rec.gambler_chosen),
    {
        let (res, _idx, rec) = Self::offer_internal(self.parent, &mut self.gambler, item);
        self.last_offer = Ghost(Some(rec@));
        res
    }

    /// Calls [`Collection::offer`] and returns the stake of the arm that took the
    /// item, or on failure that of the arm pulled first.
    pub fn offer_with_info(&mut self, item: <Q::OfferSignature as Signature>::Input) -> (r: (
        Result<<Q::OfferSignature as Signature>::Output, <Q::OfferSignature as Signature>::Error>,
        &<S::Gambler as Hooked>::Stake,
    ))
        ensures
            final(self).bandit() == old(self).bandit(),
            final(self).last_poll() == old(self).last_poll(),
            final(self).last_offer() matches Some(rec) && old(self).bandit().records_offer(old(self).gambler(), item, rec)
                && r.0 == rec.outcome().0
                && old(self).bandit().stakes().holds_at(rec.outcome().1 as int, *r.1)
                && (<S::Gambler as Hooked>::hooks_keep_gambler() ==> final(self).gambler() == rec.gambler_chosen),
    {
        proof {
            use_type_invariant(self.parent);
        }
        let (res, idx, rec) = Self::offer_internal(self.parent, &mut self.gambler, item);
        self.last_offer = Ghost(Some(rec@));
        (res, self.parent.collection_state.get(idx))
    }

    /// Calls [`Collection::offer`] and returns the index of the arm that took
    /// the item, or on failure the index of the arm pulled first, with a record
    /// of the offer.
    pub(crate) fn offer_internal(
        parent: &Bandit<Q, S, B, C, SUB_CAP>,
        gambler: &mut S::Gambler,
        item: <Q::OfferSignature as Signature>::Input,
    ) -> (r: (
        Result<<Q::OfferSignature as Signature>::Output, <Q::OfferSignature as Signature>::Error>,
        usize,
        Ghost<OfferRecord<S::Gambler, <Q::OfferSignature as Signature>::Output, <Q::OfferSignature as Signature>::Error>>,
    ))
        ensures
            parent.records_offer(*old(gambler), item, r.2@),
            (r.0, r.1) == r.2@.outcome(),
            <S::Gambler as Hooked>::hooks_keep_gambler() ==> *final(gambler) == r.2@.gambler_chosen,
    {
        proof {
            use_type_invariant(parent);
        }
        let ghost before = *gambler;
        let i = parent.strategy.choose_offer_arm(&parent.collection_state, gambler);
        let ghost chosen = *gambler;
        let arm = parent.sub_collections.get(i);
        let ghost offered = item;
        let first = arm.offer(item);
        let ghost first_rec = first;
        proof {
            assert(parent.arms().holds_at(i as int, *arm) && call_ensures(Q::offer, (arm, offered), first_rec));
        }
        match first {
            Ok(r) => {
                let rec = Ghost(OfferRecord { gambler_before: before, gambler_chosen: chosen, pulled: i, first: first_rec, fallback: None });
                let stake = parent.collection_state.get(i);
                gambler.on_offer_succ(stake);
                proof {
                    assert(<S::Gambler as Hooked>::hooks_reach_stake() ==> parent.hooked_offer_succ(i as int)) by {
                        assert(parent.stakes().holds_at(i as int, *stake));
                    }
                }
                (Ok(r), i, rec)
            },
            Err(e) => {
                let ghost refusal = e;
                let stake = parent.collection_state.get(i);
                gambler.on_offer_fail(stake);
                proof {
                    assert(<S::Gambler as Hooked>::hooks_reach_stake() ==> parent.hooked_offer_fail(i as int)) by {
                        assert(parent.stakes().holds_at(i as int, *stake));
                    }
                }
                match parent.strategy.on_offer_fail(&parent.collection_state, &parent.sub_collections, e) {
                    Ok((out, j)) => {
                        let rec = Ghost(OfferRecord {
                            gambler_before: before,
                            gambler_chosen: chosen,
                            pulled: i,
                            first: first_rec,
                            fallback: Some(Ok((out, j))),
                        });
                        let stake = parent.collection_state.get(j);
                        gambler.on_offer_succ(stake);
                        proof {
                            assert(<S::Gambler as Hooked>::hooks_reach_stake() ==> parent.hooked_offer_succ(j as int)) by {
                                assert(parent.stakes().holds_at(j as int, *stake));
                            }
                        }
                        (Ok(out), j, rec)
                    },
                    Err(e) => {
                        let rec = Ghost(OfferRecord {
                            gambler_before: before,
                            gambler_chosen: chosen,
                            pulled: i,
                            first: first_rec,
                            fallback: Some(Err(e)),
                        });
                        (Err(e), i, rec)
                    },
                }
            },
        }
    }

    /// Calls [`Collection::poll`] on the arm chosen by this handle's gambler.
    ///
    /// If the call fails, [`Strategy::on_poll_fail`] gets the chance to poll other arms.
    pub fn poll(&mut self, input: <Q::PollSignature as Signature>::Input) -> (r: Result<
        <Q::PollSignature as Signature>::Output,
        <Q::PollSignature as Signature>::Error,
    >) where <Q::PollSignature as Signature>::Input: Copy
        ensures
            final(self).bandit() == old(self).bandit(),
            final(self).last_offer() == old(self).last_offer(),
            final(self).last_poll() matches Some(rec) && old(self).bandit().records_poll(old(self).gambler(), input, rec)
                && r == rec.outcome().0
                && (<S::Gambler as Hooked>::hooks_keep_gambler() ==> final(self).gambler() == rec.gambler_chosen),
    {
        let (res, _idx, rec) = Self::poll_internal(self.parent, &mut self.gambler, input);
        self.last_poll = Ghost(Some(rec@));
        res
    }

    /// Calls [`Collection::poll`] and returns the stake of the arm that
    /// answered, or on failure that of the arm pulled first.
    pub fn poll_with_info(&mut self, input: <Q::PollSignature as Signature>::Input) -> (r: (
        Result<<Q::PollSignature as Signature>::Output, <Q::PollSignature as Signature>::Error>,
        &<S::Gambler as Hooked>::Stake,
    )) where <Q::PollSignature as Signature>::Input: Copy
        ensures
            final(self).bandit() == old(self).bandit(),
            final(self).last_offer() == old(self).last_offer(),
            final(self).last_poll() matches Some(rec) && old(self).bandit().records_poll(old(self).gambler(), input, rec)
                && r.0 == rec.outcome().0
                && old(self).bandit().stakes().holds_at(rec.outcome().1 as int, *r.1)
                && (<S::Gambler as Hooked>::hooks_keep_gambler() ==> final(self).gambler() == rec.gambler_chosen),
    {
        proof {
            use_type_invariant(self.parent);
        }
        let (res, idx, rec) = Self::poll_internal(self.parent, &mut self.gambler, input);
        self.last_poll = Ghost(Some(rec@));
        (res, self.parent.collection_state.get(idx))
    }

    /// Calls [`Collection::poll`] and returns the index of the arm that
    /// answered, or on failure the index of the arm pulled first, with a record
    /// of the poll.
    pub(crate) fn poll_internal(
        parent: &Bandit<Q, S, B, C, SUB_CAP>,
        gambler: &mut S::Gambler,
        input: <Q::PollSignature as Signature>::Input,
    ) -> (r: (
        Result<<Q::PollSignature as Signature>::Output, <Q::PollSignature as Signature>::Error>,
        usize,
        Ghost<PollRecord<S::Gambler, <Q::PollSignature as Signature>::Output, <Q::PollSignature as Signature>::Error>>,
    )) where <Q::PollSignature as Signature>::Input: Copy
        ensures
            parent.records_poll(*old(gambler), input, r.2@),
            (r.0, r.1) == r.2@.outcome(),
            <S::Gambler as Hooked>::hooks_keep_gambler() ==> *final(gambler) == r.2@.gambler_chosen,
    {
        proof {
            use_type_invariant(parent);
        }
        let ghost before = *gambler;
        let i = parent.strategy.choose_poll_arm(&parent.collection_state, gambler);
        let ghost chosen = *gambler;
        let arm = parent.sub_collections.get(i);
        let first = arm.poll(input);
        let ghost first_rec = first;
        proof {
            assert(crate::strategy::polled_arm::<Q, B>(parent.arms(), i as int, input, first_rec));
        }
        match first {
            Ok(r) => {
                let rec = Ghost(PollRecord { gambler_before: before, gambler_chosen: chosen, pulled: i, first: first_rec, fallback: None });
                let stake = parent.collection_state.get(i);
                gambler.on_poll_succ(stake);
                proof {
                    assert(<S::Gambler as Hooked>::hooks_reach_stake() ==> parent.hooked_poll_succ(i as int)) by {
                        assert(parent.stakes().holds_at(i as int, *stake));
                    }
                }
                (Ok(r), i, rec)
            },
            Err(e) => {
                let stake = parent.collection_state.get(i);
                gambler.on_poll_fail(stake);
                proof {
                    assert(<S::Gambler as Hooked>::hooks_reach_stake() ==> parent.hooked_poll_fail(i as int)) by {
                        assert(parent.stakes().holds_at(i as int, *stake));
                    }
                }
                let fallback = parent.strategy.on_poll_fail(&parent.collection_state, &parent.sub_collections, input);
                let ghost fallback_rec = fallback;
                let rec = Ghost(PollRecord {
                    gambler_before: before,
                    gambler_chosen: chosen,
                    pulled: i,
                    first: first_rec,
                    fallback: Some(fallback_rec),
                });
                match fallback {
                    Some((r, j)) => {
                        let stake = parent.collection_state.get(j);
                        gambler.on_poll_succ(stake);
                        proof {
                            assert(<S::Gambler as Hooked>::hooks_reach_stake() ==> parent.hooked_poll_succ(j as int)) by {
                                assert(parent.stakes().holds_at(j as int, *stake));
                            }
                        }
                        (Ok(r), j, rec)
                    },
                    None => (Err(e), i, rec),
                }
            },
        }
    }

    /// The stakes of all arms, in arm order.
    pub fn state(&self) -> (r: Vec<&<S::Gambler as Hooked>::Stake>)
        ensures
            r.len() == self.bandit().spec_arm_count(),
            forall|i: int| 0 <= i < r.len() ==> self.bandit().stakes().holds_at(i, *#[trigger] r@[i]),
    {
        proof {
            use_type_invariant(self.parent);
        }
        let n = self.parent.collection_state.len();
        let mut stakes: Vec<&<S::Gambler as Hooked>::Stake> = Vec::new();
        let mut i: usize = 0;
        while i < n
            invariant
                n == self.parent.collection_state.spec_len(),
                i <= n,
                stakes.len() == i,
                forall|k: int| 0 <= k < i ==> self.parent.collection_state.holds_at(k, *#[trigger] stakes@[k]),
            decreases n - i,
        {
            stakes.push(self.parent.collection_state.get(i));
            i = i + 1;
        }
        stakes
    }

    /// What each arm's [`Collection::len`] reports, in arm order.
    fn arm_lens(&self) -> (r: Vec<usize>)
        ensures
            r.len() == self.bandit().spec_arm_count(),
            forall|i: int| 0 <= i < r.len() ==> self.bandit().reported_len(i, #[trigger] r@[i]),
    {
        let n = self.parent.sub_collections.len();
        let mut lens: Vec<usize> = Vec::new();
        let mut i: usize = 0;
        while i < n
            invariant
                n == self.parent.sub_collections.spec_len(),
                i <= n,
                lens.len() == i,
                forall|k: int| 0 <= k < i ==> self.parent.reported_len(k, #[trigger] lens@[k]),
            decreases n - i,
        {
            let arm = self.parent.sub_collections.get(i);
            let value = arm.len();
            proof {
                assert(self.parent.arms().holds_at(i as int, *arm) && call_ensures(Q::len, (arm,), value));
            }
            lens.push(value);
            i = i + 1;
        }
        lens
    }

    /// What each arm's [`Collection::capacity`] reports, in arm order.
    fn arm_capacities(&self) -> (r: Vec<usize>)
        ensures
            r.len() == self.bandit().spec_arm_count(),
            forall|i: int| 0 <= i < r.len() ==> self.bandit().reported_capacity(i, #[trigger] r@[i]),
    {
        let n = self.parent.sub_collections.len();
        let mut caps: Vec<usize> = Vec::new();
        let mut i: usize = 0;
        while i < n
            invariant
                n == self.parent.sub_collections.spec_len(),
                i <= n,
                caps.len() == i,
                forall|k: int| 0 <= k < i ==> self.parent.reported_capacity(k, #[trigger] caps@[k]),
            decreases n - i,
        {
            let arm = self.parent.sub_collections.get(i);
            let value = arm.capacity();
            proof {
                assert(self.parent.arms().holds_at(i as int, *arm) && call_ensures(Q::capacity, (arm,), value));
            }
            caps.push(value);
            i = i + 1;
        }
        caps
    }

    /// The total length of all arms: the wrap-around sum of what each arm's
    /// [`Collection::len`] reported, in arm order.
    pub fn len(&self) -> (r: usize)
        ensures
            exists|lens: Seq<usize>| {
                &&& lens.len() == self.bandit().spec_arm_count()
                &&& forall|i: int| 0 <= i < lens.len() ==> self.bandit().reported_len(i, #[trigger] lens[i])
                &&& r == #[trigger] wrapping_total(lens)
            },
    {
        let lens = self.arm_lens();
        let r = total(&lens);
        assert(r == wrapping_total(lens@));
        r
    }

    /// The total capacity of all arms: the wrap-around sum of what each arm's
    /// [`Collection::capacity`] reported, in arm order. When every arm reported
    /// the same capacity `c` and the plain sum fits in a `usize`, it is the
    /// number of arms times `c`.
    pub fn capacity(&self) -> (r: usize)
        ensures
            exists|caps: Seq<usize>| {
                &&& caps.len() == self.bandit().spec_arm_count()
                &&& forall|i: int| 0 <= i < caps.len() ==> self.bandit().reported_capacity(i, #[trigger] caps[i])
                &&& r == #[trigger] wrapping_total(caps)
                &&& forall|c: usize| #[trigger] all_equal(caps, c) && caps.len() * c <= usize::MAX ==> r == caps.len() * c
            },
    {
        let caps = self.arm_capacities();
        let r = total(&caps);
        assert forall|c: usize| #[trigger] all_equal(caps@, c) && caps@.len() * c <= usize::MAX implies r == caps@.len() * c by {
            lemma_total_of_uniform_values(caps@, c);
        }
        assert(r == wrapping_total(caps@));
        r
    }

    /// Are all arms empty? Holds when the total length is zero.
    pub fn is_empty(&self) -> (r: bool)
        ensures
            exists|lens: Seq<usize>| {
                &&& lens.len() == self.bandit().spec_arm_count()
                &&& forall|i: int| 0 <= i < lens.len() ==> self.bandit().reported_len(i, #[trigger] lens[i])
                &&& r == (#[trigger] wrapping_total(lens) == 0)
            },
    {
        let lens = self.arm_lens();
        let total_len = total(&lens);
        assert(total_len == wrapping_total(lens@));
        total_len == 0
    }

    /// The number of arms.
    pub fn arm_count(&self) -> (r: usize)
        ensures
            r == self.bandit().spec_arm_count(),
    {
        self.parent.arm_count()
    }
}

impl<'a, Q, S, B, C, const SUB_CAP: usize> BanditHandle<'a, Q, S, B, C, SUB_CAP> where
    Q: PushPopCollection,
    S: Strategy<Q>,
    B: StorageBackend<Q>,
    C: StorageBackend<<S::Gambler as Hooked>::Stake>,
 {
    /// Pushes an item to the bandit; hands the item back on an error.
    ///
    /// A convenience wrapper around [`Self::offer`].
    pub fn push(&mut self, item: Q::Item) -> (r: Result<(), Q::Item>)
        ensures
            final(self).bandit() == old(self).bandit(),
            final(self).last_poll() == old(self).last_poll(),
            final(self).last_offer() matches Some(rec) && old(self).bandit().records_offer(old(self).gambler(), item, rec)
                && r == rec.outcome().0
                && (<S::Gambler as Hooked>::hooks_keep_gambler() ==> final(self).gambler() == rec.gambler_chosen),
            S::keeps_refusals() ==> (r matches Err(back) ==> back == item),
    {
        self.offer(item)
    }

    /// Attempts to pop an item from the bandit.
    ///
    /// A convenience wrapper around [`Self::poll`].
    pub fn pop(&mut self) -> (r: Option<Q::Item>)
        ensures
            final(self).bandit() == old(self).bandit(),
            final(self).last_offer() == old(self).last_offer(),
            final(self).last_poll() matches Some(rec) && old(self).bandit().records_poll(old(self).gambler(), (), rec)
                && r == match rec.outcome().0 {
                    Ok(item) => Some(item),
                    Err(_) => None::<Q::Item>,
                }
                && (<S::Gambler as Hooked>::hooks_keep_gambler() ==> final(self).gambler() == rec.gambler_chosen),
    {
        match self.poll(()) {
            Ok(item) => Some(item),
            Err(_) => None,
        }
    }
}

/// The hooks of an offer follow its outcome: when the offer succeeds, the
/// stake of the arm that took the item was given `on_offer_succ`; when it
/// fails, the stake of the arm pulled was given `on_offer_fail`.
pub proof fn lemma_offer_hooks_follow_outcome<Q, S, B, C, const SUB_CAP: usize>(
    bandit: Bandit<Q, S, B, C, SUB_CAP>,
    gambler: S::Gambler,
    item: <Q::OfferSignature as Signature>::Input,
    rec: OfferRecord<S::Gambler, <Q::OfferSignature as Signature>::Output, <Q::OfferSignature as Signature>::Error>,
) where
    Q: Collection,
    S: Strategy<Q>,
    B: StorageBackend<Q>,
    C: StorageBackend<<S::Gambler as Hooked>::Stake>,
    requires
        bandit.records_offer(gambler, item, rec),
        <S::Gambler as Hooked>::hooks_reach_stake(),
    ensures
        rec.outcome().0 is Ok ==> bandit.hooked_offer_succ(rec.outcome().1 as int),
        rec.outcome().0 is Err ==> bandit.hooked_offer_fail(rec.outcome().1 as int),
{
}

/// The hooks of a poll follow its outcome: when the poll succeeds, the stake
/// of the arm that answered was given `on_poll_succ`; when it fails, the stake
/// of the arm pulled was given `on_poll_fail`.
pub proof fn lemma_poll_hooks_follow_outcome<Q, S, B, C, const SUB_CAP: usize>(
    bandit: Bandit<Q, S, B, C, SUB_CAP>,
    gambler: S::Gambler,
    input: <Q::PollSignature as Signature>::Input,
    rec: PollRecord<S::Gambler, <Q::PollSignature as Signature>::Output, <Q::PollSignature as Signature>::Error>,
) where
    Q: Collection,
    S: Strategy<Q>,
    B: StorageBackend<Q>,
    C: StorageBackend<<S::Gambler as Hooked>::Stake>,
    requires
        bandit.records_poll(gambler, input, rec),
        <S::Gambler as Hooked>::hooks_reach_stake(),
    ensures
        rec.outcome().0 is Ok ==> bandit.hooked_poll_succ(rec.outcome().1 as int),
        rec.outcome().0 is Err ==> bandit.hooked_poll_fail(rec.outcome().1 as int),
{
}

/// With push-pop arms, a length that a bandit counts for arm `i` is what
/// that arm's own [`PushPopCollection::len`] returned.
pub proof fn lemma_counted_len_is_push_pop_len<Q, S, B, C, const SUB_CAP: usize>(
    bandit: Bandit<Q, S, B, C, SUB_CAP>,
    i: int,
    v: usize,
) where
    Q: PushPopCollection,
    S: Strategy<Q>,
    B: StorageBackend<Q>,
    C: StorageBackend<<S::Gambler as Hooked>::Stake>,
    requires
        bandit.reported_len(i, v),
    ensures
        exists|arm: Q| #[trigger] bandit.arms().holds_at(i, arm) && call_ensures(<Q as PushPopCollection>::len, (&arm,), v),
{
    let arm = choose|arm: Q| #[trigger] bandit.arms().holds_at(i, arm) && call_ensures(<Q as Collection>::len, (&arm,), v);
    crate::components::lemma_len_is_push_pop_len(arm, v);
}

/// With push-pop arms, a capacity that a bandit counts for arm `i` is what
/// that arm's own [`PushPopCollection::capacity`] returned.
pub proof fn lemma_counted_capacity_is_push_pop_capacity<Q, S, B, C, const SUB_CAP: usize>(
    bandit: Bandit<Q, S, B, C, SUB_CAP>,
    i: int,
    v: usize,
) where
    Q: PushPopCollection,
    S: Strategy<Q>,
    B: StorageBackend<Q>,
    C: StorageBackend<<S::Gambler as Hooked>::Stake>,
    requires
        bandit.reported_capacity(i, v),
    ensures
        exists|arm: Q| #[trigger] bandit.arms().holds_at(i, arm) && call_ensures(<Q as PushPopCollection>::capacity, (&arm,), v),
{
    let arm = choose|arm: Q| #[trigger] bandit.arms().holds_at(i, arm) && call_ensures(<Q as Collection>::capacity, (&arm,), v);
    crate::components::lemma_capacity_is_push_pop_capacity(arm, v);
}

} // verus!
