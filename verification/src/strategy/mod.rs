//! Strategies that decide which arm of a bandit is pulled next.
use vstd::prelude::*;
use core::sync::atomic::Ordering;
use portable_atomic::AtomicUsize;
use crossbeam_utils::CachePadded;

use crate::{
    Collection,
    Signature,
    storage::StorageBackend,
    strategy::padded::{PaddingRequest, type_eval::Truthiness},
    sync::{atomic_usize_fetch_add, atomic_usize_load, atomic_usize_new, cache_padded_get},
};

pub mod choice;
pub mod dcbo;
pub mod dra;
pub mod collect;
pub mod random;
pub mod round_robin;
pub mod padded;

pub use collect::{DoubleCollect, NoCollect, policy};
pub use dcbo::DCBO;
pub use dra::DRA;
pub use random::RandomAccess;
pub use round_robin::RoundRobin;

verus! {

/// A strategy that determines which arm is pulled next by a gambler.
pub trait Strategy<Q: Collection> {
    /// An owned gambler, keeping the history it bases its decisions on.
    type Gambler: Hooked;

    /// Holds when the static parameters of the strategy make it usable
    /// (for instance, a strategy that samples arms must sample at least one).
    spec fn configured() -> bool;

    /// The rule by which a gambler in state `before` chooses `arm` among `arms`
    /// arms for an offer, and is left in state `after`.
    spec fn offer_choice(&self, before: Self::Gambler, after: Self::Gambler, arms: nat, arm: usize) -> bool;

    /// The rule by which a gambler in state `before` chooses `arm` among `arms`
    /// arms for a poll, and is left in state `after`.
    spec fn poll_choice(&self, before: Self::Gambler, after: Self::Gambler, arms: nat, arm: usize) -> bool;

    /// Holds when every stake that a gambler in state `after` read for its
    /// last choice is the stake stored in `state` for the arm it was read for.
    spec fn read_from(&self, after: Self::Gambler, holds: spec_fn(int, <Self::Gambler as Hooked>::Stake) -> bool) -> bool;

    /// Chooses the next arm that [`Collection::offer`] is called on.
    fn choose_offer_arm<SB: StorageBackend<<Self::Gambler as Hooked>::Stake>>(
        &self,
        state: &SB,
        gambler: &mut Self::Gambler,
    ) -> (arm: usize)
        requires
            Self::configured(),
            state.spec_len() > 0,
        ensures
            arm < state.spec_len(),
            self.offer_choice(*old(gambler), *final(gambler), state.spec_len(), arm),
            self.read_from(*final(gambler), |i: int, stake: <Self::Gambler as Hooked>::Stake| state.holds_at(i, stake)),
    ;

    /// Chooses the next arm that [`Collection::poll`] is called on.
    fn choose_poll_arm<SB: StorageBackend<<Self::Gambler as Hooked>::Stake>>(
        &self,
        state: &SB,
        gambler: &mut Self::Gambler,
    ) -> (arm: usize)
        requires
            Self::configured(),
            state.spec_len() > 0,
        ensures
            arm < state.spec_len(),
            self.poll_choice(*old(gambler), *final(gambler), state.spec_len(), arm),
            self.read_from(*final(gambler), |i: int, stake: <Self::Gambler as Hooked>::Stake| state.holds_at(i, stake)),
    ;

    /// What this strategy promises of a gambler forked from `parent`.
    spec fn forked(&self, parent: Self::Gambler, child: Self::Gambler) -> bool;

    /// What this strategy promises of a gambler it creates.
    spec fn created(&self, gambler: Self::Gambler) -> bool;

    /// Holds when [`Strategy::on_offer_fail`] hands back, unchanged, every
    /// error it is given.
    spec fn keeps_refusals() -> bool;

    /// Holds when the item [`Strategy::on_poll_fail`] hands back, or its
    /// `None`, is the result of one pass of polls over the arms in order
    /// (the last pass, for a strategy that may start over).
    spec fn scans_arms() -> bool;

    /// Forks a gambler into a new one.
    fn fork_gambler(&self, parent: &Self::Gambler) -> (child: Self::Gambler)
        requires
            Self::configured(),
        ensures
            self.forked(*parent, child),
    ;

    /// Creates a new gambler with default values.
    fn create_gambler(&self) -> (gambler: Self::Gambler)
        requires
            Self::configured(),
        ensures
            self.created(gambler),
    ;

    /// Makes sure all arms were checked in a consistent manner after
    /// [`Collection::poll`] failed on the pulled arm.
    ///
    /// By default every arm is polled once, in order, and the first success is
    /// handed back together with the index of the arm it came from (see [`poll_pass`]).
    fn on_poll_fail<SB: StorageBackend<<Self::Gambler as Hooked>::Stake>, AB: StorageBackend<Q>>(
        &self,
        state: &SB,
        bandit_arms: &AB,
        input: <Q::PollSignature as Signature>::Input,
    ) -> (r: Option<(<Q::PollSignature as Signature>::Output, usize)>)
        where <Q::PollSignature as Signature>::Input: Copy
        requires
            state.spec_len() == bandit_arms.spec_len(),
        ensures
            r matches Some(found) ==> found.1 < bandit_arms.spec_len(),
            Self::scans_arms() ==> exists|polled: Seq<
                Result<<Q::PollSignature as Signature>::Output, <Q::PollSignature as Signature>::Error>,
            >| #[trigger] is_scan::<Q, AB>(*bandit_arms, input, polled, r),
    {
        let (found, polled) = poll_pass(bandit_arms, input);
        proof {
            assert(is_scan::<Q, AB>(*bandit_arms, input, polled@, found));
        }
        found
    }

    /// Makes sure all arms were checked in a consistent manner after
    /// [`Collection::offer`] failed on the pulled arm.
    ///
    /// By default the error is handed back unchanged.
    fn on_offer_fail<SB: StorageBackend<<Self::Gambler as Hooked>::Stake>, AB: StorageBackend<Q>>(
        &self,
        state: &SB,
        bandit_arms: &AB,
        input: <Q::OfferSignature as Signature>::Error,
    ) -> (r: Result<
        (<Q::OfferSignature as Signature>::Output, usize),
        <Q::OfferSignature as Signature>::Error,
    >)
        requires
            state.spec_len() == bandit_arms.spec_len(),
        ensures
            r matches Ok(placed) ==> placed.1 < bandit_arms.spec_len(),
            Self::keeps_refusals() ==> r == Err::<(<Q::OfferSignature as Signature>::Output, usize), _>(input),
        default_ensures
            r matches Err(e) && e == input,
    {
        Err(input)
    }
}

/// `found` is what one pass over `arms` arms hands back, where `polled` holds
/// the outcomes of the arms it polled: the arms are polled in order until one
/// succeeds, whose item and index are handed back; `None` means that every arm
/// was polled once and each poll failed.
pub open spec fn is_pass<O, E>(polled: Seq<Result<O, E>>, arms: nat, found: Option<(O, usize)>) -> bool {
    match found {
        Some(hit) => {
            &&& hit.1 < arms
            &&& polled.len() == hit.1 + 1
            &&& polled[hit.1 as int] == Ok::<O, E>(hit.0)
            &&& forall|j: int| 0 <= j < hit.1 ==> #[trigger] polled[j] is Err
        },
        None => {
            &&& polled.len() == arms
            &&& forall|j: int| 0 <= j < arms ==> #[trigger] polled[j] is Err
        },
    }
}

/// `outcome` is an answer that the arm in slot `j` of `arms` may give to a
/// poll with `input`: it is what a call of [`Collection::poll`] on that arm
/// returned.
pub open spec fn polled_arm<Q: Collection, AB: StorageBackend<Q>>(
    arms: AB,
    j: int,
    input: <Q::PollSignature as Signature>::Input,
    outcome: Result<<Q::PollSignature as Signature>::Output, <Q::PollSignature as Signature>::Error>,
) -> bool {
    exists|arm: Q| #[trigger] arms.holds_at(j, arm) && call_ensures(Q::poll, (&arm, input), outcome)
}

/// `found` is what one pass over `arms` with `input` hands back, where
/// `polled[j]` is what the poll of arm `j` returned (see [`is_pass`]).
pub open spec fn is_scan<Q: Collection, AB: StorageBackend<Q>>(
    arms: AB,
    input: <Q::PollSignature as Signature>::Input,
    polled: Seq<Result<<Q::PollSignature as Signature>::Output, <Q::PollSignature as Signature>::Error>>,
    found: Option<(<Q::PollSignature as Signature>::Output, usize)>,
) -> bool {
    &&& is_pass(polled, arms.spec_len(), found)
    &&& forall|j: int| 0 <= j < polled.len() ==> polled_arm::<Q, AB>(arms, j, input, #[trigger] polled[j])
}

/// Polls the arms in order with copies of `input` and stops at the first
/// success. Hands back that success with the arm's index, or `None` when every
/// poll failed, and, as a ghost value, the outcome of each poll it made.
pub fn poll_pass<Q: Collection, AB: StorageBackend<Q>>(arms: &AB, input: <Q::PollSignature as Signature>::Input) -> (r: (
    Option<(<Q::PollSignature as Signature>::Output, usize)>,
    Ghost<Seq<Result<<Q::PollSignature as Signature>::Output, <Q::PollSignature as Signature>::Error>>>,
)) where <Q::PollSignature as Signature>::Input: Copy
    ensures
        is_scan::<Q, AB>(*arms, input, r.1@, r.0),
{
    let n = arms.len();
    let ghost mut polled: Seq<Result<<Q::PollSignature as Signature>::Output, <Q::PollSignature as Signature>::Error>> = Seq::empty();
    let mut i: usize = 0;
    while i < n
        invariant
            n == arms.spec_len(),
            i <= n,
            polled.len() == i,
            forall|j: int| 0 <= j < i ==> #[trigger] polled[j] is Err,
            forall|j: int| 0 <= j < i ==> polled_arm::<Q, AB>(*arms, j, input, #[trigger] polled[j]),
        decreases n - i,
    {
        let arm = arms.get(i);
        let res = arm.poll(input);
        proof {
            assert(polled_arm::<Q, AB>(*arms, i as int, input, res));
            polled = polled.push(res);
        }
        match res {
            Ok(item) => {
                return (Some((item, i)), Ghost(polled));
            },
            Err(_) => {},
        }
        i = i + 1;
    }
    (None, Ghost(polled))
}

/// A hook on the stake held in each arm of a bandit.
pub trait Hook {
    /// Updates the stake on a successful [`Collection::offer`].
    fn on_offer_succ(&self) {
    }

    /// Updates the stake on a failed [`Collection::offer`].
    fn on_offer_fail(&self) {
    }

    /// Updates the stake on a successful [`Collection::poll`].
    fn on_poll_succ(&self) {
    }

    /// Updates the stake on a failed [`Collection::poll`].
    fn on_poll_fail(&self) {
    }
}

/// Callbacks that update a gambler and the stakes based on the outcome of its decisions.
pub trait Hooked: Sized {
    /// The type of stake in an arm associated with this gambler.
    type Stake: Default + Hook;

    /// The padding that this gambler's stake asks for at the storage level.
    type RequestedPadding: PaddingRequest + Truthiness;

    /// Holds when the hooks below leave the gambler as it was, and only act
    /// on the stake.
    spec fn hooks_keep_gambler() -> bool;

    /// Holds when each hook below applies the hook of the same name to the
    /// stake it is given.
    spec fn hooks_reach_stake() -> bool;

    /// Updates the gambler on a successful [`Collection::offer`].
    fn on_offer_succ(&mut self, sub_state: &Self::Stake)
        ensures
            Self::hooks_keep_gambler() ==> *final(self) == *old(self),
            Self::hooks_reach_stake() ==> call_ensures(<Self::Stake as Hook>::on_offer_succ, (sub_state,), ()),
    {
        sub_state.on_offer_succ();
    }

    /// Updates the gambler on a failed [`Collection::offer`].
    fn on_offer_fail(&mut self, sub_state: &Self::Stake)
        ensures
            Self::hooks_keep_gambler() ==> *final(self) == *old(self),
            Self::hooks_reach_stake() ==> call_ensures(<Self::Stake as Hook>::on_offer_fail, (sub_state,), ()),
    {
        sub_state.on_offer_fail();
    }

    /// Updates the gambler on a successful [`Collection::poll`].
    fn on_poll_succ(&mut self, sub_state: &Self::Stake)
        ensures
            Self::hooks_keep_gambler() ==> *final(self) == *old(self),
            Self::hooks_reach_stake() ==> call_ensures(<Self::Stake as Hook>::on_poll_succ, (sub_state,), ()),
    {
        sub_state.on_poll_succ();
    }

    /// Updates the gambler on a failed [`Collection::poll`].
    fn on_poll_fail(&mut self, sub_state: &Self::Stake)
        ensures
            Self::hooks_keep_gambler() ==> *final(self) == *old(self),
            Self::hooks_reach_stake() ==> call_ensures(<Self::Stake as Hook>::on_poll_fail, (sub_state,), ()),
    {
        sub_state.on_poll_fail();
    }
}

/// Wraps a stake and counts the successful offers and polls on its arm.
pub struct InstrumentedState<T> {
    offer_count: AtomicUsize,
    poll_count: AtomicUsize,
    sched_state: T,
}

impl<T> InstrumentedState<T> {
    /// The wrapped stake, as a mathematical value.
    pub closed spec fn wrapped(&self) -> T {
        self.sched_state
    }

    /// The count of successful offers on the arm.
    pub fn offer_count(&self) -> usize {
        atomic_usize_load(&self.offer_count, Ordering::Relaxed)
    }

    /// The count of successful polls on the arm.
    pub fn poll_count(&self) -> usize {
        atomic_usize_load(&self.poll_count, Ordering::Relaxed)
    }
}

impl<T> core::ops::Deref for InstrumentedState<T> {
    type Target = T;

    fn deref(&self) -> (r: &T)
        ensures
            *r == self.wrapped(),
    {
        &self.sched_state
    }
}

impl<T> core::ops::DerefMut for InstrumentedState<T> {
    fn deref_mut(&mut self) -> (r: &mut T)
        ensures
            *r == old(self).wrapped(),
            final(self).wrapped() == *final(r),
    {
        &mut self.sched_state
    }
}

impl<T: Default> Default for InstrumentedState<T> {
    fn default() -> Self {
        InstrumentedState {
            offer_count: atomic_usize_new(0),
            poll_count: atomic_usize_new(0),
            sched_state: T::default(),
        }
    }
}

impl<T: Clone> Clone for InstrumentedState<T> {
    /// Clones the wrapped stake; the counters start at the values read.
    fn clone(&self) -> (r: Self)
        ensures
            call_ensures(T::clone, (&self.wrapped(),), r.wrapped()),
    {
        InstrumentedState {
            offer_count: atomic_usize_new(atomic_usize_load(&self.offer_count, Ordering::Relaxed)),
            poll_count: atomic_usize_new(atomic_usize_load(&self.poll_count, Ordering::Relaxed)),
            sched_state: self.sched_state.clone(),
        }
    }
}

impl<T: Hook> Hook for InstrumentedState<T> {
    fn on_offer_succ(&self) {
        atomic_usize_fetch_add(&self.offer_count, 1, Ordering::Relaxed);
        self.sched_state.on_offer_succ();
    }

    fn on_offer_fail(&self) {
        self.sched_state.on_offer_fail();
    }

    fn on_poll_succ(&self) {
        atomic_usize_fetch_add(&self.poll_count, 1, Ordering::Relaxed);
        self.sched_state.on_poll_succ();
    }

    fn on_poll_fail(&self) {
        self.sched_state.on_poll_fail();
    }
}

/// `counts` is the pair of counters that [`EDCount::unpad`] gave for the
/// padded stake `stake`.
pub open spec fn unpadded_counts(stake: CachePadded<EDCount>, counts: EDCount) -> bool {
    call_ensures(EDCount::unpad, (&stake,), &counts)
}

/// Stores the count of successful offers and polls on an arm.
pub struct EDCount {
    offer_count: AtomicUsize,
    poll_count: AtomicUsize,
}

impl EDCount {
    /// The counters held in a cache-padded stake.
    pub fn unpad(stake: &CachePadded<EDCount>) -> &EDCount {
        cache_padded_get(stake)
    }

    /// The count of successful offers on the arm.
    pub fn offer_count(&self) -> usize {
        atomic_usize_load(&self.offer_count, Ordering::Relaxed)
    }

    /// The count of successful polls on the arm.
    pub fn poll_count(&self) -> usize {
        atomic_usize_load(&self.poll_count, Ordering::Relaxed)
    }
}

impl Default for EDCount {
    fn default() -> Self {
        EDCount { offer_count: atomic_usize_new(0), poll_count: atomic_usize_new(0) }
    }
}

impl Clone for EDCount {
    fn clone(&self) -> Self {
        EDCount {
            offer_count: atomic_usize_new(atomic_usize_load(&self.offer_count, Ordering::Relaxed)),
            poll_count: atomic_usize_new(atomic_usize_load(&self.poll_count, Ordering::Relaxed)),
        }
    }
}

impl Hook for EDCount {
    fn on_offer_succ(&self) {
        atomic_usize_fetch_add(&self.offer_count, 1, Ordering::Relaxed);
    }

    fn on_poll_succ(&self) {
        atomic_usize_fetch_add(&self.poll_count, 1, Ordering::Relaxed);
    }
}

impl Hook for () {
}

} // verus!
