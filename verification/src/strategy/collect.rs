//! Strategies that decide what happens after a poll on the pulled arm failed.
use vstd::prelude::*;
use core::marker::PhantomData;
use core::sync::atomic::Ordering;
use crossbeam_utils::CachePadded;
use portable_atomic::AtomicUsize;

use crate::{
    Collection,
    Signature,
    storage::StorageBackend,
    strategy::{Hook, Hooked, Strategy, padded::RequiresPadding},
    sync::{atomic_usize_fetch_add, atomic_usize_load, atomic_usize_new, cache_padded_get},
};

pub mod policy;

use policy::{InvalidationPolicy, OfferInvalidate};

verus! {

/// Projects a stored stake onto the stake seen by an inner strategy.
pub trait StakeView<T> {
    /// Holds when `stake` is what [`StakeView::project`] hands out for this stored stake.
    spec fn projects_to(&self, stake: T) -> bool;

    /// The projected stake.
    fn project(&self) -> (r: &T)
        ensures
            self.projects_to(*r),
    ;
}

/// Wraps a strategy and never collects remaining items after a failed poll.
pub struct NoCollect<S>(S);

impl<S: Default> Default for NoCollect<S> {
    fn default() -> Self {
        NoCollect(S::default())
    }
}

impl<S> NoCollect<S> {
    /// Wraps `strategy`.
    pub fn new(strategy: S) -> (r: Self)
        ensures
            r.inner() == strategy,
    {
        NoCollect(strategy)
    }

    /// The wrapped strategy.
    pub closed spec fn inner(&self) -> S {
        self.0
    }
}

impl<Q: Collection, S: Strategy<Q>> Strategy<Q> for NoCollect<S> {
    type Gambler = S::Gambler;

    open spec fn configured() -> bool {
        S::configured()
    }

    open spec fn keeps_refusals() -> bool {
        true
    }

    open spec fn scans_arms() -> bool {
        false
    }


    /// The wrapped strategy reads the stakes.
    open spec fn read_from(&self, after: S::Gambler, holds: spec_fn(int, <Self::Gambler as Hooked>::Stake) -> bool) -> bool {
        self.inner().read_from(after, holds)
    }

    /// The wrapped strategy chooses.
    open spec fn offer_choice(&self, before: S::Gambler, after: S::Gambler, arms: nat, arm: usize) -> bool {
        self.inner().offer_choice(before, after, arms, arm)
    }

    /// The wrapped strategy chooses.
    open spec fn poll_choice(&self, before: S::Gambler, after: S::Gambler, arms: nat, arm: usize) -> bool {
        self.inner().poll_choice(before, after, arms, arm)
    }

    /// The wrapped strategy forks.
    open spec fn forked(&self, parent: S::Gambler, child: S::Gambler) -> bool {
        self.inner().forked(parent, child)
    }

    /// The wrapped strategy creates.
    open spec fn created(&self, gambler: S::Gambler) -> bool {
        self.inner().created(gambler)
    }

    fn choose_offer_arm<SB: StorageBackend<<Self::Gambler as Hooked>::Stake>>(
        &self,
        state: &SB,
        gambler: &mut Self::Gambler,
    ) -> (arm: usize) {
        self.0.choose_offer_arm(state, gambler)
    }

    fn choose_poll_arm<SB: StorageBackend<<Self::Gambler as Hooked>::Stake>>(
        &self,
        state: &SB,
        gambler: &mut Self::Gambler,
    ) -> (arm: usize) {
        self.0.choose_poll_arm(state, gambler)
    }

    fn fork_gambler(&self, gambler: &Self::Gambler) -> Self::Gambler {
        self.0.fork_gambler(gambler)
    }

    fn create_gambler(&self) -> Self::Gambler {
        self.0.create_gambler()
    }

    fn on_poll_fail<SB: StorageBackend<<Self::Gambler as Hooked>::Stake>, AB: StorageBackend<Q>>(
        &self,
        state: &SB,
        bandit_arms: &AB,
        input: <Q::PollSignature as Signature>::Input,
    ) -> (r: Option<(<Q::PollSignature as Signature>::Output, usize)>)
        where <Q::PollSignature as Signature>::Input: Copy
        ensures
            r is None,
    {
        None
    }
}

/// A storage of stakes seen through [`StakeView::project`].
pub struct StorageView<'a, B, T, K> {
    backend: &'a B,
    _phantom: PhantomData<(&'a T, &'a K)>,
}

impl<'a, B: StorageBackend<K>, T, K: StakeView<T>> StorageView<'a, B, T, K> {
    /// A view of `backend`.
    pub fn new(backend: &'a B) -> (r: Self)
        ensures
            r.spec_len() == backend.spec_len(),
    {
        StorageView { backend, _phantom: PhantomData }
    }
}

impl<'a, B: StorageBackend<K>, T, K: StakeView<T>> StorageBackend<T> for StorageView<'a, B, T, K> {
    closed spec fn spec_len(&self) -> nat {
        self.backend.spec_len()
    }

    /// Slot `i` hands out the projection of the stake stored in slot `i` of the backend.
    closed spec fn holds_at(&self, i: int, item: T) -> bool {
        exists|stored: K| self.backend.holds_at(i, stored) && #[trigger] stored.projects_to(item)
    }

    fn len(&self) -> (r: usize) {
        self.backend.len()
    }

    fn get(&self, index: usize) -> (r: &T) {
        let stored = self.backend.get(index);
        stored.project()
    }
}

/// No stake's epoch advanced between the first read (`first`) and the second
/// read (`second`).
pub open spec fn epochs_settled(first: Seq<usize>, second: Seq<usize>) -> bool {
    forall|i: int| 0 <= i < first.len() ==> !(#[trigger] first[i] < second[i])
}

/// Decides whether a collect may conclude that all arms were empty: it may
/// when no epoch read on the second pass is larger than the one read before
/// the arm was polled.
pub fn no_epoch_advanced(first: &Vec<usize>, second: &Vec<usize>) -> (r: bool)
    requires
        first.len() == second.len(),
    ensures
        r == epochs_settled(first@, second@),
{
    let mut i: usize = 0;
    while i < first.len()
        invariant
            first.len() == second.len(),
            i <= first.len(),
            epochs_settled(first@.take(i as int), second@.take(i as int)),
        decreases first.len() - i,
    {
        if first[i] < second[i] {
            assert(!epochs_settled(first@, second@)) by {
                assert(first@[i as int] < second@[i as int]);
            }
            return false;
        }
        assert(epochs_settled(first@.take(i + 1), second@.take(i + 1))) by {
            assert forall|j: int| 0 <= j < i + 1 implies !(#[trigger] first@.take(i + 1)[j] < second@.take(i + 1)[j]) by {
                if j < i {
                    assert(first@.take(i as int)[j] == first@.take(i + 1)[j]);
                    assert(second@.take(i as int)[j] == second@.take(i + 1)[j]);
                }
            }
        }
        i = i + 1;
    }
    assert(first@.take(i as int) == first@);
    assert(second@.take(i as int) == second@);
    true
}

/// Runs a double collect after a failed poll.
///
/// This strategy promises empty-linearizability, given the same holds for the raw [`Collection`].
pub struct DoubleCollect<S, P = OfferInvalidate>(S, PhantomData<P>);

impl<S, P> DoubleCollect<S, P> {
    /// Constructs a new `DoubleCollect` around `strategy`.
    pub fn new(strategy: S) -> (r: Self)
        ensures
            r.inner() == strategy,
    {
        DoubleCollect(strategy, PhantomData)
    }

    /// The wrapped strategy.
    pub closed spec fn inner(&self) -> S {
        self.0
    }
}

impl<S: Default, P> Default for DoubleCollect<S, P> {
    fn default() -> Self {
        DoubleCollect(S::default(), PhantomData)
    }
}

/// The gambler of a [`DoubleCollect`]: the gambler of the wrapped strategy.
pub struct DoubleCollectGambler<A, P> {
    gambler: A,
    _policy: PhantomData<P>,
}

/// The stake of a [`DoubleCollect`]: the stake of the wrapped strategy and an
/// epoch that successful operations advance, as the policy `P` dictates.
pub struct DoubleCollectState<S, P> {
    strategy: S,
    epoch: AtomicUsize,
    _policy: PhantomData<P>,
}

impl<S, P> DoubleCollectState<S, P> {
    /// The stake of the wrapped strategy.
    pub closed spec fn stake(&self) -> S {
        self.strategy
    }

    /// Reads the epoch of this stake.
    fn read_epoch(&self) -> usize {
        atomic_usize_load(&self.epoch, Ordering::Acquire)
    }

    /// Advances the epoch of this stake by one.
    fn advance_epoch(&self) {
        atomic_usize_fetch_add(&self.epoch, 1, Ordering::Release);
    }
}

impl<S: Default, P> Default for DoubleCollectState<S, P> {
    fn default() -> Self {
        DoubleCollectState { strategy: S::default(), epoch: atomic_usize_new(0), _policy: PhantomData }
    }
}

impl<S, P> StakeView<S> for DoubleCollectState<S, P> {
    open spec fn projects_to(&self, stake: S) -> bool {
        stake == self.stake()
    }

    fn project(&self) -> (r: &S) {
        &self.strategy
    }
}

impl<S, P> StakeView<S> for CachePadded<DoubleCollectState<S, P>> {
    /// The padded value is opaque here, so nothing is said of the projection.
    open spec fn projects_to(&self, stake: S) -> bool {
        true
    }

    fn project(&self) -> &S {
        &cache_padded_get(self).strategy
    }
}

impl<A, P> DoubleCollectGambler<A, P> {
    /// The gambler of the wrapped strategy.
    pub closed spec fn inner(&self) -> A {
        self.gambler
    }
}

impl<A: Hooked, P: InvalidationPolicy> Hooked for DoubleCollectGambler<A, P> {
    type Stake = CachePadded<DoubleCollectState<A::Stake, P>>;
    type RequestedPadding = RequiresPadding;

    open spec fn hooks_keep_gambler() -> bool {
        true
    }

    open spec fn hooks_reach_stake() -> bool {
        true
    }
}

impl<T: Hook, P: InvalidationPolicy> Hook for DoubleCollectState<T, P> {
    fn on_offer_succ(&self) {
        if P::invalidate_on_offer() {
            self.advance_epoch();
        }
        self.strategy.on_offer_succ();
    }

    fn on_poll_succ(&self) {
        if P::invalidate_on_poll() {
            self.advance_epoch();
        }
        self.strategy.on_poll_succ();
    }
}

impl<S: Strategy<Q>, Q: Collection, P: InvalidationPolicy> Strategy<Q> for DoubleCollect<S, P> {
    type Gambler = DoubleCollectGambler<S::Gambler, P>;

    open spec fn configured() -> bool {
        S::configured()
    }

    open spec fn keeps_refusals() -> bool {
        true
    }

    open spec fn scans_arms() -> bool {
        true
    }


    /// The wrapped strategy forks the wrapped gambler.
    open spec fn forked(&self, parent: DoubleCollectGambler<S::Gambler, P>, child: DoubleCollectGambler<S::Gambler, P>) -> bool {
        self.inner().forked(parent.inner(), child.inner())
    }

    /// The wrapped strategy creates the wrapped gambler.
    open spec fn created(&self, gambler: DoubleCollectGambler<S::Gambler, P>) -> bool {
        self.inner().created(gambler.inner())
    }

    /// The wrapped strategy reads its stakes through a projection of the
    /// stored ones, which is opaque here: nothing is said of them.
    open spec fn read_from(
        &self,
        after: DoubleCollectGambler<S::Gambler, P>,
        holds: spec_fn(int, <Self::Gambler as Hooked>::Stake) -> bool,
    ) -> bool {
        true
    }

    /// The wrapped strategy chooses, with the wrapped gambler.
    open spec fn offer_choice(
        &self,
        before: DoubleCollectGambler<S::Gambler, P>,
        after: DoubleCollectGambler<S::Gambler, P>,
        arms: nat,
        arm: usize,
    ) -> bool {
        self.inner().offer_choice(before.inner(), after.inner(), arms, arm)
    }

    /// The wrapped strategy chooses, with the wrapped gambler.
    open spec fn poll_choice(
        &self,
        before: DoubleCollectGambler<S::Gambler, P>,
        after: DoubleCollectGambler<S::Gambler, P>,
        arms: nat,
        arm: usize,
    ) -> bool {
        self.inner().poll_choice(before.inner(), after.inner(), arms, arm)
    }

    fn choose_offer_arm<SB: StorageBackend<<Self::Gambler as Hooked>::Stake>>(
        &self,
        state: &SB,
        gambler: &mut Self::Gambler,
    ) -> (arm: usize) {
        let view: StorageView<SB, <S::Gambler as Hooked>::Stake, <Self::Gambler as Hooked>::Stake> = StorageView::new(state);
        self.0.choose_offer_arm(&view, &mut gambler.gambler)
    }

    fn choose_poll_arm<SB: StorageBackend<<Self::Gambler as Hooked>::Stake>>(
        &self,
        state: &SB,
        gambler: &mut Self::Gambler,
    ) -> (arm: usize) {
        let view: StorageView<SB, <S::Gambler as Hooked>::Stake, <Self::Gambler as Hooked>::Stake> = StorageView::new(state);
        self.0.choose_poll_arm(&view, &mut gambler.gambler)
    }

    fn fork_gambler(&self, gambler: &Self::Gambler) -> Self::Gambler {
        DoubleCollectGambler { gambler: self.0.fork_gambler(&gambler.gambler), _policy: PhantomData }
    }

    fn create_gambler(&self) -> Self::Gambler {
        DoubleCollectGambler { gambler: self.0.create_gambler(), _policy: PhantomData }
    }

    /// Runs [`double_collect`]: polls the arms in order until one succeeds;
    /// after a pass in which every poll failed, concludes that all arms were
    /// empty unless an arm's epoch advanced meanwhile, and then starts over.
    fn on_poll_fail<SB: StorageBackend<<Self::Gambler as Hooked>::Stake>, AB: StorageBackend<Q>>(
        &self,
        state: &SB,
        sub_collections: &AB,
        input: <Q::PollSignature as Signature>::Input,
    ) -> (r: Option<(<Q::PollSignature as Signature>::Output, usize)>)
        where <Q::PollSignature as Signature>::Input: Copy
    {
        let (found, trace) = double_collect(state, sub_collections, input);
        proof {
            assert(crate::strategy::is_scan::<Q, AB>(*sub_collections, input, trace@.0, found));
        }
        found
    }
}

/// One pass of a collect: polls the arms in order with copies of `input`,
/// reading each arm's epoch just before its poll, and stops at the first
/// success. Hands back that success with the arm's index, or `None` when every
/// poll failed; the epochs read, by arm (zero for an arm not reached); and, as a
/// ghost value, the outcome of each poll it made.
pub fn collect_pass<Q: Collection, T, P, SB: StorageBackend<CachePadded<DoubleCollectState<T, P>>>, AB: StorageBackend<Q>>(
    state: &SB,
    arms: &AB,
    input: <Q::PollSignature as Signature>::Input,
) -> (r: (
    Option<(<Q::PollSignature as Signature>::Output, usize)>,
    Vec<usize>,
    Ghost<Seq<Result<<Q::PollSignature as Signature>::Output, <Q::PollSignature as Signature>::Error>>>,
)) where <Q::PollSignature as Signature>::Input: Copy
    requires
        state.spec_len() == arms.spec_len(),
    ensures
        crate::strategy::is_scan::<Q, AB>(*arms, input, r.2@, r.0),
        r.1.len() == arms.spec_len(),
{
    let n = arms.len();
    let mut versions: Vec<usize> = Vec::new();
    let mut k: usize = 0;
    while k < n
        invariant
            k <= n,
            versions.len() == k,
        decreases n - k,
    {
        versions.push(0);
        k = k + 1;
    }
    let ghost mut polled: Seq<Result<<Q::PollSignature as Signature>::Output, <Q::PollSignature as Signature>::Error>> = Seq::empty();
    let mut i: usize = 0;
    while i < n
        invariant
            n == state.spec_len(),
            n == arms.spec_len(),
            versions.len() == n,
            i <= n,
            polled.len() == i,
            forall|j: int| 0 <= j < i ==> #[trigger] polled[j] is Err,
            forall|j: int| 0 <= j < i ==> crate::strategy::polled_arm::<Q, AB>(*arms, j, input, #[trigger] polled[j]),
        decreases n - i,
    {
        let epoch = cache_padded_get(state.get(i)).read_epoch();
        let arm = arms.get(i);
        let res = arm.poll(input);
        proof {
            assert(crate::strategy::polled_arm::<Q, AB>(*arms, i as int, input, res));
            polled = polled.push(res);
        }
        match res {
            Ok(item) => {
                return (Some((item, i)), versions, Ghost(polled));
            },
            Err(_) => {},
        }
        versions.set(i, epoch);
        i = i + 1;
    }
    (None, versions, Ghost(polled))
}

/// The epoch of every arm's stake, in arm order.
pub fn read_epochs<T, P, SB: StorageBackend<CachePadded<DoubleCollectState<T, P>>>>(state: &SB) -> (r: Vec<usize>)
    ensures
        r.len() == state.spec_len(),
{
    let n = state.len();
    let mut current: Vec<usize> = Vec::new();
    let mut j: usize = 0;
    while j < n
        invariant
            n == state.spec_len(),
            current.len() == j,
            j <= n,
        decreases n - j,
    {
        current.push(cache_padded_get(state.get(j)).read_epoch());
        j = j + 1;
    }
    current
}

/// A double collect: runs [`collect_pass`] until a pass finds an item, which is
/// handed back with its arm's index; after a pass in which every poll failed, it
/// rereads the epochs and hands back `None` unless an epoch advanced since it was
/// read before the arm's poll, in which case it starts over, at most `u64::MAX`
/// times.
///
/// As a ghost value it also hands back the outcomes of the last pass, the
/// epochs read during it and afterwards, and the number of times it started over.
pub fn double_collect<Q: Collection, T, P, SB: StorageBackend<CachePadded<DoubleCollectState<T, P>>>, AB: StorageBackend<Q>>(
    state: &SB,
    arms: &AB,
    input: <Q::PollSignature as Signature>::Input,
) -> (r: (
    Option<(<Q::PollSignature as Signature>::Output, usize)>,
    Ghost<(Seq<Result<<Q::PollSignature as Signature>::Output, <Q::PollSignature as Signature>::Error>>, Seq<usize>, Seq<usize>, u64)>,
)) where <Q::PollSignature as Signature>::Input: Copy
    requires
        state.spec_len() == arms.spec_len(),
    ensures
        crate::strategy::is_scan::<Q, AB>(*arms, input, r.1@.0, r.0),
        r.0 is None ==> {
            &&& r.1@.1.len() == arms.spec_len()
            &&& r.1@.2.len() == arms.spec_len()
            &&& epochs_settled(r.1@.1, r.1@.2) || r.1@.3 == u64::MAX
        },
{
    let mut rounds: u64 = 0;
    loop
        invariant
            state.spec_len() == arms.spec_len(),
        decreases u64::MAX - rounds,
    {
        let (found, versions, polled) = collect_pass(state, arms, input);
        if found.is_some() {
            return (found, Ghost((polled@, versions@, versions@, rounds)));
        }
        let current = read_epochs(state);
        if no_epoch_advanced(&versions, &current) {
            return (found, Ghost((polled@, versions@, current@, rounds)));
        }
        if rounds == u64::MAX {
            return (found, Ghost((polled@, versions@, current@, rounds)));
        }
        rounds = rounds + 1;
    }
}

} // verus!
