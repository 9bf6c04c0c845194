//! The d-choice balanced-operations strategy.
use vstd::prelude::*;
use crossbeam_utils::CachePadded;

use crate::{
    Collection,
    storage::StorageBackend,
    strategy::{
        EDCount,
        Hooked,
        Strategy,
        choice::pick_first_least,
        padded::RequiresPadding,
        random::PerThreadRng,
        unpadded_counts,
    },
};

verus! {

/// The DCBO strategy: samples `CHOOSE` arms and pulls the one with the fewest
/// successful operations of the same kind.
///
/// Rank error and delay of this strategy are bounded with high probability
/// (Balanced Allocations over Efficient Queues: A Fast Relaxed FIFO Queue, Geijer et al.).
pub struct DCBO<const CHOOSE: usize>;

impl<const CHOOSE: usize> Default for DCBO<CHOOSE> {
    fn default() -> Self {
        DCBO
    }
}

/// The gambler of [`DCBO`]: a per-thread random number generator, the arms
/// it sampled for its last choice with the count read for each, and the
/// stakes and counters it read them from.
pub struct DCBOGambler<const CHOOSE: usize>(
    PerThreadRng,
    Ghost<(Seq<usize>, Seq<usize>)>,
    Ghost<(Seq<CachePadded<EDCount>>, Seq<EDCount>)>,
);

impl<const CHOOSE: usize> Default for DCBOGambler<CHOOSE> {
    fn default() -> (r: Self)
        ensures
            r.last_draw() == (Seq::<usize>::empty(), Seq::<usize>::empty()),
            r.rng().is_fresh(),
    {
        DCBOGambler(PerThreadRng::default(), Ghost((Seq::empty(), Seq::empty())), Ghost((Seq::empty(), Seq::empty())))
    }
}

impl<const CHOOSE: usize> DCBOGambler<CHOOSE> {
    /// The generator this gambler samples arms with.
    pub closed spec fn rng(&self) -> PerThreadRng {
        self.0
    }

    /// The arms sampled for the last choice, and the count read for each.
    pub closed spec fn last_draw(&self) -> (Seq<usize>, Seq<usize>) {
        self.1@
    }

    /// The padded stakes read for the last choice, and the counters found in
    /// each, in the order of the sampled arms.
    pub closed spec fn last_reads(&self) -> (Seq<CachePadded<EDCount>>, Seq<EDCount>) {
        self.2@
    }

    /// The key of each arm of the last draw is what the counters found in its
    /// stake returned from `offer_count` (`by_offers`) or from `poll_count`.
    pub open spec fn keyed_by(&self, by_offers: bool) -> bool {
        &&& self.last_reads().0.len() == CHOOSE
        &&& self.last_reads().1.len() == CHOOSE
        &&& forall|j: int| 0 <= j < CHOOSE ==> unpadded_counts(self.last_reads().0[j], #[trigger] self.last_reads().1[j])
        &&& forall|j: int| 0 <= j < CHOOSE ==> if by_offers {
            call_ensures(EDCount::offer_count, (&self.last_reads().1[j],), #[trigger] self.last_draw().1[j])
        } else {
            call_ensures(EDCount::poll_count, (&self.last_reads().1[j],), #[trigger] self.last_draw().1[j])
        }
    }

    /// Each stake read for the last draw is the one `state` stores for its arm.
    pub open spec fn reads_from(&self, holds: spec_fn(int, CachePadded<EDCount>) -> bool) -> bool {
        forall|j: int| 0 <= j < self.last_reads().0.len() ==> holds(
            #[trigger] self.last_draw().0[j] as int,
            self.last_reads().0[j],
        )
    }

    /// Samples `CHOOSE` arms of `state` and pulls the first one with the least
    /// offer count (`by_offers`) or poll count (otherwise).
    fn pick<SB: StorageBackend<CachePadded<EDCount>>>(&mut self, state: &SB, by_offers: bool) -> (arm: usize)
        requires
            CHOOSE > 0,
            state.spec_len() > 0,
        ensures
            arm < state.spec_len(),
            final(self).rng().seeds() == old(self).rng().seeds(),
            final(self).rng().rng_seed() == old(self).rng().rng_seed(),
            crate::strategy::choice::is_draw(final(self).last_draw().0, final(self).last_draw().1, CHOOSE as nat, state.spec_len()),
            crate::strategy::choice::picks_first_least(final(self).last_draw().0, final(self).last_draw().1, arm),
            final(self).keyed_by(by_offers),
            final(self).reads_from(|i: int, stake: CachePadded<EDCount>| state.holds_at(i, stake)),
    {
        let n = state.len();
        let mut arms: Vec<usize> = Vec::new();
        let mut keys: Vec<usize> = Vec::new();
        let ghost mut stakes: Seq<CachePadded<EDCount>> = Seq::empty();
        let ghost mut counters: Seq<EDCount> = Seq::empty();
        let mut k: usize = 0;
        while k < CHOOSE
            invariant
                n == state.spec_len(),
                n > 0,
                k <= CHOOSE,
                arms.len() == k,
                keys.len() == k,
                stakes.len() == k,
                counters.len() == k,
                forall|j: int| 0 <= j < k ==> #[trigger] arms@[j] < n,
                forall|j: int| 0 <= j < k ==> state.holds_at(#[trigger] arms@[j] as int, stakes[j]),
                forall|j: int| 0 <= j < k ==> unpadded_counts(stakes[j], #[trigger] counters[j]),
                forall|j: int| 0 <= j < k ==> if by_offers {
                    call_ensures(EDCount::offer_count, (&counters[j],), #[trigger] keys@[j])
                } else {
                    call_ensures(EDCount::poll_count, (&counters[j],), #[trigger] keys@[j])
                },
                self.rng().seeds() == old(self).rng().seeds(),
                self.rng().rng_seed() == old(self).rng().rng_seed(),
            decreases CHOOSE - k,
        {
            let arm = self.0.random_below(n);
            let padded = state.get(arm);
            let stake = EDCount::unpad(padded);
            let key = if by_offers { stake.offer_count() } else { stake.poll_count() };
            proof {
                stakes = stakes.push(*padded);
                counters = counters.push(*stake);
            }
            arms.push(arm);
            keys.push(key);
            k = k + 1;
        }
        self.1 = Ghost((arms@, keys@));
        self.2 = Ghost((stakes, counters));
        pick_first_least(&arms, &keys)
    }
}

impl<Q: Collection, const CHOOSE: usize> Strategy<Q> for DCBO<CHOOSE> {
    type Gambler = DCBOGambler<CHOOSE>;

    open spec fn keeps_refusals() -> bool {
        true
    }

    open spec fn scans_arms() -> bool {
        true
    }


    open spec fn configured() -> bool {
        CHOOSE > 0
    }

    /// A forked gambler's generator is seeded from the parent's seed
    /// sequence, and it has drawn nothing yet.
    open spec fn forked(&self, parent: DCBOGambler<CHOOSE>, child: DCBOGambler<CHOOSE>) -> bool {
        &&& child.rng().is_forked()
        &&& child.last_draw() == (Seq::<usize>::empty(), Seq::<usize>::empty())
    }

    /// A new gambler has a fresh generator and has drawn nothing yet.
    open spec fn created(&self, gambler: DCBOGambler<CHOOSE>) -> bool {
        &&& gambler.rng().is_fresh()
        &&& gambler.last_draw() == (Seq::<usize>::empty(), Seq::<usize>::empty())
    }

    /// An offer samples `CHOOSE` arms and pulls the first one with the least
    /// offer count read; the gambler's seed sequence is left as it was.
    open spec fn offer_choice(&self, before: DCBOGambler<CHOOSE>, after: DCBOGambler<CHOOSE>, arms: nat, arm: usize) -> bool {
        &&& after.rng().seeds() == before.rng().seeds()
        &&& after.rng().rng_seed() == before.rng().rng_seed()
        &&& crate::strategy::choice::is_draw(after.last_draw().0, after.last_draw().1, CHOOSE as nat, arms)
        &&& crate::strategy::choice::picks_first_least(after.last_draw().0, after.last_draw().1, arm)
        &&& after.keyed_by(true)
    }

    /// A poll samples `CHOOSE` arms and pulls the first one with the least
    /// poll count read; the gambler's seed sequence is left as it was.
    open spec fn poll_choice(&self, before: DCBOGambler<CHOOSE>, after: DCBOGambler<CHOOSE>, arms: nat, arm: usize) -> bool {
        &&& after.rng().seeds() == before.rng().seeds()
        &&& after.rng().rng_seed() == before.rng().rng_seed()
        &&& crate::strategy::choice::is_draw(after.last_draw().0, after.last_draw().1, CHOOSE as nat, arms)
        &&& crate::strategy::choice::picks_first_least(after.last_draw().0, after.last_draw().1, arm)
        &&& after.keyed_by(false)
    }

    /// The stakes read are those `state` stores for the sampled arms.
    open spec fn read_from(&self, after: DCBOGambler<CHOOSE>, holds: spec_fn(int, <Self::Gambler as Hooked>::Stake) -> bool) -> bool {
        after.reads_from(holds)
    }

    fn choose_offer_arm<SB: StorageBackend<<Self::Gambler as Hooked>::Stake>>(
        &self,
        state: &SB,
        gambler: &mut Self::Gambler,
    ) -> (arm: usize) {
        gambler.pick(state, true)
    }

    fn choose_poll_arm<SB: StorageBackend<<Self::Gambler as Hooked>::Stake>>(
        &self,
        state: &SB,
        gambler: &mut Self::Gambler,
    ) -> (arm: usize) {
        gambler.pick(state, false)
    }

    fn fork_gambler(&self, gambler: &Self::Gambler) -> Self::Gambler {
        DCBOGambler(gambler.0.fork_thread(), Ghost((Seq::empty(), Seq::empty())), Ghost((Seq::empty(), Seq::empty())))
    }

    fn create_gambler(&self) -> Self::Gambler {
        DCBOGambler::default()
    }
}

impl<const CHOOSE: usize> Hooked for DCBOGambler<CHOOSE> {
    type Stake = CachePadded<EDCount>;
    type RequestedPadding = RequiresPadding;

    open spec fn hooks_keep_gambler() -> bool {
        true
    }

    open spec fn hooks_reach_stake() -> bool {
        true
    }
}

/// A DCBO poll pulls a sampled arm with the fewest successful polls: every
/// sampled arm is keyed by what `poll_count` returned on the counters held in
/// the stake stored for it in `state`, and the pulled arm is a sampled arm
/// whose key is no larger than any other.
pub proof fn lemma_dcbo_poll_pulls_fewest_polls<Q: Collection, const CHOOSE: usize, SB: StorageBackend<CachePadded<EDCount>>>(
    strategy: DCBO<CHOOSE>,
    before: DCBOGambler<CHOOSE>,
    after: DCBOGambler<CHOOSE>,
    arms: nat,
    arm: usize,
    state: SB,
)
    requires
        <DCBO<CHOOSE> as Strategy<Q>>::poll_choice(&strategy, before, after, arms, arm),
        <DCBO<CHOOSE> as Strategy<Q>>::read_from(&strategy, after, |i: int, stake: CachePadded<EDCount>| state.holds_at(i, stake)),
    ensures
        forall|j: int| 0 <= j < CHOOSE ==> {
            &&& state.holds_at(after.last_draw().0[j] as int, after.last_reads().0[j])
            &&& unpadded_counts(after.last_reads().0[j], after.last_reads().1[j])
            &&& call_ensures(EDCount::poll_count, (&after.last_reads().1[j],), #[trigger] after.last_draw().1[j])
        },
        exists|p: int| 0 <= p < CHOOSE && after.last_draw().0[p] == arm
            && forall|j: int| 0 <= j < CHOOSE ==> after.last_draw().1[p] <= #[trigger] after.last_draw().1[j],
{
    let p = choose|p: int| crate::strategy::choice::is_first_min(after.last_draw().1, p) && arm == #[trigger] after.last_draw().0[p];
    assert(0 <= p < CHOOSE && after.last_draw().0[p] == arm);
}

/// A DCBO offer pulls a sampled arm with the fewest successful offers: every
/// sampled arm is keyed by what `offer_count` returned on the counters held
/// in the stake stored for it in `state`, and the pulled arm is a sampled arm
/// whose key is no larger than any other.
pub proof fn lemma_dcbo_offer_pulls_fewest_offers<Q: Collection, const CHOOSE: usize, SB: StorageBackend<CachePadded<EDCount>>>(
    strategy: DCBO<CHOOSE>,
    before: DCBOGambler<CHOOSE>,
    after: DCBOGambler<CHOOSE>,
    arms: nat,
    arm: usize,
    state: SB,
)
    requires
        <DCBO<CHOOSE> as Strategy<Q>>::offer_choice(&strategy, before, after, arms, arm),
        <DCBO<CHOOSE> as Strategy<Q>>::read_from(&strategy, after, |i: int, stake: CachePadded<EDCount>| state.holds_at(i, stake)),
    ensures
        forall|j: int| 0 <= j < CHOOSE ==> {
            &&& state.holds_at(after.last_draw().0[j] as int, after.last_reads().0[j])
            &&& unpadded_counts(after.last_reads().0[j], after.last_reads().1[j])
            &&& call_ensures(EDCount::offer_count, (&after.last_reads().1[j],), #[trigger] after.last_draw().1[j])
        },
        exists|p: int| 0 <= p < CHOOSE && after.last_draw().0[p] == arm
            && forall|j: int| 0 <= j < CHOOSE ==> after.last_draw().1[p] <= #[trigger] after.last_draw().1[j],
{
    let p = choose|p: int| crate::strategy::choice::is_first_min(after.last_draw().1, p) && arm == #[trigger] after.last_draw().0[p];
    assert(0 <= p < CHOOSE && after.last_draw().0[p] == arm);
}

} // verus!
