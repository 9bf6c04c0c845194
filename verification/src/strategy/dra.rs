//! The d-random-arms strategy.
use vstd::prelude::*;
use crossbeam_utils::CachePadded;

use crate::{
    Collection,
    storage::StorageBackend,
    strategy::{
        EDCount,
        Hooked,
        Strategy,
        choice::{pick_first_least, pick_last_greatest},
        padded::RequiresPadding,
        random::PerThreadRng,
        unpadded_counts,
    },
};

verus! {

/// The DRA strategy: samples `CHOOSE` arms and keys each by its surplus of
/// offers over polls, an estimate of its length; offers go to the first arm
/// with the least surplus (the emptiest), polls to the last arm with the
/// greatest surplus (the fullest).
///
/// Rank error and delay of this strategy are bounded with high probability
/// (Performance, Scalability, and Semantics of Concurrent FIFO Queues, Kirsch et al.).
///
/// The strategy is its own gambler: a per-thread random number generator, the
/// arms it sampled for its last choice with the surplus read for each, and the
/// stakes, counters and counts it read them from.
pub struct DRA<const CHOOSE: usize>(PerThreadRng, Ghost<(Seq<usize>, Seq<usize>)>, Ghost<(Seq<CachePadded<EDCount>>, Seq<EDCount>, Seq<usize>, Seq<usize>)>);

impl<const CHOOSE: usize> Default for DRA<CHOOSE> {
    fn default() -> (r: Self)
        ensures
            r.last_draw() == (Seq::<usize>::empty(), Seq::<usize>::empty()),
            r.rng().is_fresh(),
    {
        DRA(PerThreadRng::default(), Ghost((Seq::empty(), Seq::empty())), Ghost((Seq::empty(), Seq::empty(), Seq::empty(), Seq::empty())))
    }
}

impl<const CHOOSE: usize> DRA<CHOOSE> {
    /// The generator this gambler samples arms with.
    pub closed spec fn rng(&self) -> PerThreadRng {
        self.0
    }

    /// The arms sampled for the last choice, and the surplus read for each.
    pub closed spec fn last_draw(&self) -> (Seq<usize>, Seq<usize>) {
        self.1@
    }

    /// For the last choice, in the order of the sampled arms: the padded
    /// stakes read, the counters found in each, and the offer and poll counts
    /// those counters returned.
    pub closed spec fn last_reads(&self) -> (Seq<CachePadded<EDCount>>, Seq<EDCount>, Seq<usize>, Seq<usize>) {
        self.2@
    }

    /// `reads` holds, for `CHOOSE` sampled arms, the padded stakes read, the
    /// counters found in each, and the offer and poll counts those counters
    /// returned; each key is the offer count less the poll count, or zero.
    pub open spec fn surplus_reads(keys: Seq<usize>, reads: (Seq<CachePadded<EDCount>>, Seq<EDCount>, Seq<usize>, Seq<usize>)) -> bool {
        &&& keys.len() == CHOOSE
        &&& reads.0.len() == CHOOSE
        &&& reads.1.len() == CHOOSE
        &&& reads.2.len() == CHOOSE
        &&& reads.3.len() == CHOOSE
        &&& forall|j: int| 0 <= j < CHOOSE ==> unpadded_counts(reads.0[j], #[trigger] reads.1[j])
        &&& forall|j: int| 0 <= j < CHOOSE ==> call_ensures(EDCount::offer_count, (&reads.1[j],), #[trigger] reads.2[j])
        &&& forall|j: int| 0 <= j < CHOOSE ==> call_ensures(EDCount::poll_count, (&reads.1[j],), #[trigger] reads.3[j])
        &&& forall|j: int| 0 <= j < CHOOSE ==> #[trigger] keys[j] == reads.2[j].saturating_sub(reads.3[j])
    }

    /// Each stake read for the last draw is the one `holds` places at its arm.
    pub open spec fn reads_from(&self, holds: spec_fn(int, CachePadded<EDCount>) -> bool) -> bool {
        forall|j: int| 0 <= j < self.last_reads().0.len() ==> holds(
            #[trigger] self.last_draw().0[j] as int,
            self.last_reads().0[j],
        )
    }

    /// Samples `CHOOSE` arms of `state`. For each it reads the offer count,
    /// then the poll count, and keys the arm by the offers less the polls, or
    /// zero where the polls are more. Returns the sampled arms, the keys, and
    /// the offer and poll counts read.
    fn sample<SB: StorageBackend<CachePadded<EDCount>>>(&mut self, state: &SB) -> (r: (
        Vec<usize>,
        Vec<usize>,
        Ghost<(Seq<CachePadded<EDCount>>, Seq<EDCount>, Seq<usize>, Seq<usize>)>,
    ))
        requires
            CHOOSE > 0,
            state.spec_len() > 0,
        ensures
            crate::strategy::choice::is_draw(r.0@, r.1@, CHOOSE as nat, state.spec_len()),
            Self::surplus_reads(r.1@, r.2@),
            forall|j: int| 0 <= j < CHOOSE ==> state.holds_at(#[trigger] r.0@[j] as int, r.2@.0[j]),
            final(self).rng().seeds() == old(self).rng().seeds(),
            final(self).rng().rng_seed() == old(self).rng().rng_seed(),
            final(self).last_draw() == old(self).last_draw(),
    {
        let n = state.len();
        let mut arms: Vec<usize> = Vec::new();
        let mut keys: Vec<usize> = Vec::new();
        let ghost mut stakes: Seq<CachePadded<EDCount>> = Seq::empty();
        let ghost mut counters: Seq<EDCount> = Seq::empty();
        let ghost mut offers_read: Seq<usize> = Seq::empty();
        let ghost mut polls_read: Seq<usize> = Seq::empty();
        let mut k: usize = 0;
        while k < CHOOSE
            invariant
                n == state.spec_len(),
                n > 0,
                k <= CHOOSE,
                arms.len() == k,
                keys.len() == k,
                stakes.len() == k,
                counters.len() == k,
                offers_read.len() == k,
                polls_read.len() == k,
                forall|j: int| 0 <= j < k ==> state.holds_at(#[trigger] arms@[j] as int, stakes[j]),
                forall|j: int| 0 <= j < k ==> unpadded_counts(stakes[j], #[trigger] counters[j]),
                forall|j: int| 0 <= j < k ==> call_ensures(EDCount::offer_count, (&counters[j],), #[trigger] offers_read[j]),
                forall|j: int| 0 <= j < k ==> call_ensures(EDCount::poll_count, (&counters[j],), #[trigger] polls_read[j]),
                forall|j: int| 0 <= j < k ==> #[trigger] arms@[j] < n,
                forall|j: int| 0 <= j < k ==> #[trigger] keys@[j] == offers_read[j].saturating_sub(polls_read[j]),
                self.rng().seeds() == old(self).rng().seeds(),
                self.rng().rng_seed() == old(self).rng().rng_seed(),
                self.last_draw() == old(self).last_draw(),
            decreases CHOOSE - k,
        {
            let arm = self.0.random_below(n);
            let padded = state.get(arm);
            let stake = EDCount::unpad(padded);
            let offers = stake.offer_count();
            let polls = stake.poll_count();
            arms.push(arm);
            keys.push(offers.saturating_sub(polls));
            proof {
                stakes = stakes.push(*padded);
                counters = counters.push(*stake);
                offers_read = offers_read.push(offers);
                polls_read = polls_read.push(polls);
            }
            k = k + 1;
        }
        (arms, keys, Ghost((stakes, counters, offers_read, polls_read)))
    }
}

impl<Q: Collection, const CHOOSE: usize> Strategy<Q> for DRA<CHOOSE> {
    type Gambler = DRA<CHOOSE>;

    open spec fn keeps_refusals() -> bool {
        true
    }

    /// The stakes read are those stored for the sampled arms.
    open spec fn read_from(&self, after: DRA<CHOOSE>, holds: spec_fn(int, <Self::Gambler as Hooked>::Stake) -> bool) -> bool {
        after.reads_from(holds)
    }

    open spec fn scans_arms() -> bool {
        true
    }


    open spec fn configured() -> bool {
        CHOOSE > 0
    }

    /// A forked gambler's generator is seeded from the parent's seed
    /// sequence, and it has drawn nothing yet.
    open spec fn forked(&self, parent: DRA<CHOOSE>, child: DRA<CHOOSE>) -> bool {
        &&& child.rng().is_forked()
        &&& child.last_draw() == (Seq::<usize>::empty(), Seq::<usize>::empty())
    }

    /// A new gambler has a fresh generator and has drawn nothing yet.
    open spec fn created(&self, gambler: DRA<CHOOSE>) -> bool {
        &&& gambler.rng().is_fresh()
        &&& gambler.last_draw() == (Seq::<usize>::empty(), Seq::<usize>::empty())
    }

    /// An offer samples `CHOOSE` arms and pulls the first one with the least
    /// surplus of offers over polls; the seed sequence is left as it was.
    open spec fn offer_choice(&self, before: DRA<CHOOSE>, after: DRA<CHOOSE>, arms: nat, arm: usize) -> bool {
        &&& after.rng().seeds() == before.rng().seeds()
        &&& after.rng().rng_seed() == before.rng().rng_seed()
        &&& crate::strategy::choice::is_draw(after.last_draw().0, after.last_draw().1, CHOOSE as nat, arms)
        &&& crate::strategy::choice::picks_first_least(after.last_draw().0, after.last_draw().1, arm)
        &&& Self::surplus_reads(after.last_draw().1, after.last_reads())
    }

    /// A poll samples `CHOOSE` arms and pulls the last one with the greatest
    /// surplus of offers over polls; the seed sequence is left as it was.
    open spec fn poll_choice(&self, before: DRA<CHOOSE>, after: DRA<CHOOSE>, arms: nat, arm: usize) -> bool {
        &&& after.rng().seeds() == before.rng().seeds()
        &&& after.rng().rng_seed() == before.rng().rng_seed()
        &&& crate::strategy::choice::is_draw(after.last_draw().0, after.last_draw().1, CHOOSE as nat, arms)
        &&& crate::strategy::choice::picks_last_greatest(after.last_draw().0, after.last_draw().1, arm)
        &&& Self::surplus_reads(after.last_draw().1, after.last_reads())
    }

    fn choose_offer_arm<SB: StorageBackend<<Self::Gambler as Hooked>::Stake>>(
        &self,
        state: &SB,
        gambler: &mut Self::Gambler,
    ) -> (arm: usize) {
        let (arms, keys, reads) = gambler.sample(state);
        gambler.1 = Ghost((arms@, keys@));
        gambler.2 = reads;
        pick_first_least(&arms, &keys)
    }

    fn choose_poll_arm<SB: StorageBackend<<Self::Gambler as Hooked>::Stake>>(
        &self,
        state: &SB,
        gambler: &mut Self::Gambler,
    ) -> (arm: usize) {
        let (arms, keys, reads) = gambler.sample(state);
        gambler.1 = Ghost((arms@, keys@));
        gambler.2 = reads;
        pick_last_greatest(&arms, &keys)
    }

    fn fork_gambler(&self, gambler: &Self::Gambler) -> Self::Gambler {
        DRA(gambler.0.fork_thread(), Ghost((Seq::empty(), Seq::empty())), Ghost((Seq::empty(), Seq::empty(), Seq::empty(), Seq::empty())))
    }

    fn create_gambler(&self) -> Self::Gambler {
        DRA::default()
    }
}

impl<const CHOOSE: usize> Hooked for DRA<CHOOSE> {
    type Stake = CachePadded<EDCount>;
    type RequestedPadding = RequiresPadding;

    open spec fn hooks_keep_gambler() -> bool {
        true
    }

    open spec fn hooks_reach_stake() -> bool {
        true
    }
}

/// A DRA offer pulls the emptiest sampled arm: every sampled arm is keyed by
/// the offer count less the poll count (or zero) that the counters held in the
/// stake stored for it in `state` returned, and the pulled arm is a sampled
/// arm whose key is no larger than any other.
pub proof fn lemma_dra_offer_pulls_emptiest<Q: Collection, const CHOOSE: usize, SB: StorageBackend<CachePadded<EDCount>>>(
    strategy: DRA<CHOOSE>,
    before: DRA<CHOOSE>,
    after: DRA<CHOOSE>,
    arms: nat,
    arm: usize,
    state: SB,
)
    requires
        <DRA<CHOOSE> as Strategy<Q>>::offer_choice(&strategy, before, after, arms, arm),
        <DRA<CHOOSE> as Strategy<Q>>::read_from(&strategy, after, |i: int, stake: CachePadded<EDCount>| state.holds_at(i, stake)),
    ensures
        forall|j: int| 0 <= j < CHOOSE ==> {
            &&& state.holds_at(after.last_draw().0[j] as int, after.last_reads().0[j])
            &&& unpadded_counts(after.last_reads().0[j], after.last_reads().1[j])
            &&& call_ensures(EDCount::offer_count, (&after.last_reads().1[j],), after.last_reads().2[j])
            &&& call_ensures(EDCount::poll_count, (&after.last_reads().1[j],), after.last_reads().3[j])
            &&& #[trigger] after.last_draw().1[j] == after.last_reads().2[j].saturating_sub(after.last_reads().3[j])
        },
        exists|p: int| 0 <= p < CHOOSE && after.last_draw().0[p] == arm
            && forall|j: int| 0 <= j < CHOOSE ==> after.last_draw().1[p] <= #[trigger] after.last_draw().1[j],
{
    let p = choose|p: int| crate::strategy::choice::is_first_min(after.last_draw().1, p) && arm == #[trigger] after.last_draw().0[p];
    assert(0 <= p < CHOOSE && after.last_draw().0[p] == arm);
}

/// A DRA poll pulls the fullest sampled arm: every sampled arm is keyed by
/// the offer count less the poll count (or zero) that the counters held in the
/// stake stored for it in `state` returned, and the pulled arm is a sampled
/// arm whose key is no smaller than any other.
pub proof fn lemma_dra_poll_pulls_fullest<Q: Collection, const CHOOSE: usize, SB: StorageBackend<CachePadded<EDCount>>>(
    strategy: DRA<CHOOSE>,
    before: DRA<CHOOSE>,
    after: DRA<CHOOSE>,
    arms: nat,
    arm: usize,
    state: SB,
)
    requires
        <DRA<CHOOSE> as Strategy<Q>>::poll_choice(&strategy, before, after, arms, arm),
        <DRA<CHOOSE> as Strategy<Q>>::read_from(&strategy, after, |i: int, stake: CachePadded<EDCount>| state.holds_at(i, stake)),
    ensures
        forall|j: int| 0 <= j < CHOOSE ==> {
            &&& state.holds_at(after.last_draw().0[j] as int, after.last_reads().0[j])
            &&& unpadded_counts(after.last_reads().0[j], after.last_reads().1[j])
            &&& call_ensures(EDCount::offer_count, (&after.last_reads().1[j],), after.last_reads().2[j])
            &&& call_ensures(EDCount::poll_count, (&after.last_reads().1[j],), after.last_reads().3[j])
            &&& #[trigger] after.last_draw().1[j] == after.last_reads().2[j].saturating_sub(after.last_reads().3[j])
        },
        exists|p: int| 0 <= p < CHOOSE && after.last_draw().0[p] == arm
            && forall|j: int| 0 <= j < CHOOSE ==> #[trigger] after.last_draw().1[j] <= after.last_draw().1[p],
{
    let p = choose|p: int| crate::strategy::choice::is_last_max(after.last_draw().1, p) && arm == #[trigger] after.last_draw().0[p];
    assert(0 <= p < CHOOSE && after.last_draw().0[p] == arm);
}

} // verus!
