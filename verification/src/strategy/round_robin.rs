//! The round robin strategy.
use vstd::prelude::*;

use crate::{
    Collection,
    storage::StorageBackend,
    strategy::{Hooked, InstrumentedState, Strategy, padded::{NoPad, NoPadding}, random::SplitMix64},
};

verus! {

/// The position after `cur`: one more, wrapping around at `usize::MAX`.
pub open spec fn next_position(cur: usize) -> usize {
    if cur == usize::MAX {
        0
    } else {
        (cur + 1) as usize
    }
}

/// The round robin strategy: each gambler pulls the arms one after the other.
///
/// This strategy does not promise a bound on rank error and delay.
pub struct RoundRobin;

impl Default for RoundRobin {
    fn default() -> Self {
        RoundRobin
    }
}

/// The gambler of [`RoundRobin`]: its position in the cycle of arms, and a
/// seed sequence that spreads forked gamblers over the cycle.
pub struct RoundRobinGambler {
    cur: usize,
    fork_state: SplitMix64,
}

impl Default for RoundRobinGambler {
    fn default() -> (r: Self)
        ensures
            r.position() == 0,
            r.fork_seeds().start() == crate::strategy::random::SPLITMIX_GAMMA,
    {
        RoundRobinGambler { cur: 0, fork_state: SplitMix64::default() }
    }
}

impl RoundRobinGambler {
    /// The position of the gambler in the cycle of arms.
    pub closed spec fn position(&self) -> usize {
        self.cur
    }

    /// The seed sequence from which forked gamblers take their positions.
    pub closed spec fn fork_seeds(&self) -> SplitMix64 {
        self.fork_state
    }

    /// Hands out the current position and advances it by one.
    fn fetch_add(&mut self) -> (n: usize)
        ensures
            n == old(self).position(),
            final(self).position() == next_position(old(self).position()),
            final(self).fork_seeds() == old(self).fork_seeds(),
    {
        let n = self.cur;
        self.cur = self.cur.wrapping_add(1);
        n
    }

    /// The arm pulled next among `arms` arms: the current position modulo
    /// `arms`; the position advances by one.
    pub fn next_arm(&mut self, arms: usize) -> (arm: usize)
        requires
            arms > 0,
        ensures
            arm == old(self).position() % arms,
            final(self).position() == next_position(old(self).position()),
            final(self).fork_seeds() == old(self).fork_seeds(),
    {
        self.fetch_add() % arms
    }
}

impl<Q: Collection> Strategy<Q> for RoundRobin {
    type Gambler = RoundRobinGambler;

    open spec fn keeps_refusals() -> bool {
        true
    }

    /// No stake is read for a choice.
    open spec fn read_from(&self, after: RoundRobinGambler, holds: spec_fn(int, <Self::Gambler as Hooked>::Stake) -> bool) -> bool {
        true
    }

    open spec fn scans_arms() -> bool {
        true
    }


    open spec fn configured() -> bool {
        true
    }

    /// A forked gambler starts at a value of the parent's seed sequence, and its
    /// own seed sequence starts at that value.
    open spec fn forked(&self, parent: RoundRobinGambler, child: RoundRobinGambler) -> bool {
        &&& child.position() == child.fork_seeds().start() as usize
        &&& exists|v: u64| child.fork_seeds().start() == crate::strategy::random::spec_splitmix_output(v)
    }

    /// Both offers and polls pull the arm at the gambler's position, which then advances by one.
    open spec fn offer_choice(&self, before: RoundRobinGambler, after: RoundRobinGambler, arms: nat, arm: usize) -> bool {
        &&& arm as int == before.position() as int % arms as int
        &&& after.position() == next_position(before.position())
        &&& after.fork_seeds() == before.fork_seeds()
    }

    open spec fn poll_choice(&self, before: RoundRobinGambler, after: RoundRobinGambler, arms: nat, arm: usize) -> bool {
        &&& arm as int == before.position() as int % arms as int
        &&& after.position() == next_position(before.position())
        &&& after.fork_seeds() == before.fork_seeds()
    }

    /// A new gambler starts at position 0, with the default seed sequence.
    open spec fn created(&self, gambler: RoundRobinGambler) -> bool {
        &&& gambler.position() == 0
        &&& gambler.fork_seeds().start() == crate::strategy::random::SPLITMIX_GAMMA
    }

    fn choose_offer_arm<SB: StorageBackend<<Self::Gambler as Hooked>::Stake>>(
        &self,
        state: &SB,
        gambler: &mut Self::Gambler,
    ) -> (arm: usize) {
        gambler.next_arm(state.len())
    }

    fn choose_poll_arm<SB: StorageBackend<<Self::Gambler as Hooked>::Stake>>(
        &self,
        state: &SB,
        gambler: &mut Self::Gambler,
    ) -> (arm: usize) {
        gambler.next_arm(state.len())
    }

    fn fork_gambler(&self, gambler: &Self::Gambler) -> Self::Gambler {
        let next_cur = gambler.fork_state.next_u64();
        RoundRobinGambler { cur: next_cur as usize, fork_state: SplitMix64::from_seed(next_cur) }
    }

    fn create_gambler(&self) -> Self::Gambler {
        RoundRobinGambler::default()
    }
}

impl Hooked for RoundRobinGambler {
    type Stake = NoPad<InstrumentedState<()>>;
    type RequestedPadding = NoPadding;

    open spec fn hooks_keep_gambler() -> bool {
        true
    }

    open spec fn hooks_reach_stake() -> bool {
        true
    }
}

/// Round robin visits the arms cyclically: unless the position wraps around,
/// the arm pulled after arm `a` is arm `a + 1`, or arm 0 after the last arm.
pub proof fn lemma_round_robin_cycles(position: usize, arms: int)
    requires
        arms > 0,
        position < usize::MAX,
    ensures
        next_position(position) as int % arms == (position as int % arms + 1) % arms,
{
    vstd::arithmetic::div_mod::lemma_add_mod_noop(position as int, 1, arms);
    if arms > 1 {
        vstd::arithmetic::div_mod::lemma_small_mod(1, arms as nat);
    }
}

/// Among the pulls from the `arms` consecutive positions starting at
/// `position`, arm `arm` is pulled.
pub open spec fn pulled_within(position: int, arms: int, arm: int) -> bool {
    exists|k: int| 0 <= k < arms && #[trigger] ((position + k) % arms) == arm
}

/// Round robin is fair: among the pulls from `arms` consecutive positions
/// starting at `position` (without wrapping around), every arm is pulled, and
/// no arm is pulled twice.
pub proof fn lemma_round_robin_is_fair(position: int, arms: int)
    requires
        0 <= position,
        arms > 0,
    ensures
        forall|arm: int| 0 <= arm < arms ==> #[trigger] pulled_within(position, arms, arm),
        forall|k1: int, k2: int| 0 <= k1 < k2 < arms ==> #[trigger] ((position + k1) % arms) != #[trigger] ((position + k2) % arms),
{
    assert forall|arm: int| 0 <= arm < arms implies #[trigger] pulled_within(position, arms, arm) by {
        let k = (arm - position) % arms;
        let q = (arm - position) / arms;
        vstd::arithmetic::div_mod::lemma_fundamental_div_mod(arm - position, arms);
        vstd::arithmetic::div_mod::lemma_mod_bound(arm - position, arms);
        assert(arms * (-q) == -(arms * q)) by (nonlinear_arith);
        assert(position + k == arms * (-q) + arm);
        vstd::arithmetic::div_mod::lemma_mod_multiples_vanish(-q, arm, arms);
        vstd::arithmetic::div_mod::lemma_small_mod(arm as nat, arms as nat);
        assert((position + k) % arms == arm);
    }
    assert forall|k1: int, k2: int| 0 <= k1 < k2 < arms implies #[trigger] ((position + k1) % arms) != #[trigger] ((position + k2) % arms) by {
        if (position + k1) % arms == (position + k2) % arms {
            vstd::arithmetic::div_mod::lemma_fundamental_div_mod(position + k1, arms);
            vstd::arithmetic::div_mod::lemma_fundamental_div_mod(position + k2, arms);
            let a = (position + k1) / arms;
            let b = (position + k2) / arms;
            assert(arms * b - arms * a == arms * (b - a)) by (nonlinear_arith);
            lemma_no_multiple_strictly_between(arms, b - a, k2 - k1);
        }
    }
}

/// No multiple of `n` lies strictly between 0 and `n`.
proof fn lemma_no_multiple_strictly_between(n: int, m: int, d: int)
    requires
        n > 0,
        d == n * m,
    ensures
        !(0 < d < n),
{
    if 0 < d < n {
        if m <= 0 {
            assert(n * m <= 0) by (nonlinear_arith)
                requires
                    n > 0,
                    m <= 0,
            ;
        } else {
            assert(n * m >= n) by (nonlinear_arith)
                requires
                    n > 0,
                    m >= 1,
            ;
        }
    }
}

} // verus!
