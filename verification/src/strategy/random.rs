//! Random arm selection, and the per-thread random number generators shared by
//! the randomised strategies.
use vstd::prelude::*;
use core::sync::atomic::Ordering;
use portable_atomic::AtomicU64;
use rand::{RngExt, SeedableRng, rngs::SmallRng};

use crate::{
    Collection,
    storage::StorageBackend,
    strategy::{Hooked, InstrumentedState, Strategy, padded::{NoPad, NoPadding}},
    sync::{atomic_u64_fetch_add, atomic_u64_new},
};

verus! {

#[verifier::external_type_specification]
#[verifier::external_body]
pub struct ExSmallRng(SmallRng);

/// Calls `rand::SeedableRng::seed_from_u64` for `SmallRng`: a generator
/// seeded deterministically from `seed`. The generator is opaque here.
#[verifier::external_body]
fn small_rng_from_seed(seed: u64) -> SmallRng {
    SmallRng::seed_from_u64(seed)
}

/// Calls `rand::RngExt::random_range` on the range `..bound`, which panics on
/// an empty range and otherwise samples a value below `bound`.
#[verifier::external_body]
fn small_rng_below(rng: &mut SmallRng, bound: usize) -> (r: usize)
    requires
        bound > 0,
    ensures
        r < bound,
{
    rng.random_range(..bound)
}

/// The increment of the SplitMix64 sequence (the golden ratio in 64 bits).
pub const SPLITMIX_GAMMA: u64 = 0x9e3779b97f4a7c15;

/// `x * y` modulo 2^64.
pub open spec fn mul_mod64(x: u64, y: u64) -> u64 {
    ((x as nat * y as nat) % 0x1_0000_0000_0000_0000nat) as u64
}

/// The SplitMix64 output function applied to the state `v`.
pub open spec fn spec_splitmix_output(v: u64) -> u64 {
    let a = mul_mod64(v ^ (v >> 30u64), 0xbf58476d1ce4e5b9u64);
    let b = mul_mod64(a ^ (a >> 27u64), 0x94d049bb133111ebu64);
    b ^ (b >> 31u64)
}

/// The SplitMix64 output function: scrambles the state `v` into a random-looking value.
pub fn splitmix_output(v: u64) -> (r: u64)
    ensures
        r == spec_splitmix_output(v),
{
    let mut x = (v ^ (v >> 30u64)).wrapping_mul(0xbf58476d1ce4e5b9u64);
    x = (x ^ (x >> 27u64)).wrapping_mul(0x94d049bb133111ebu64);
    x ^ (x >> 31u64)
}

/// A SplitMix64 sequence whose state is shared between threads.
pub struct SplitMix64 {
    state: AtomicU64,
    start: Ghost<u64>,
}

impl SplitMix64 {
    /// The state the sequence started at.
    pub closed spec fn start(&self) -> u64 {
        self.start@
    }

    /// A sequence starting at `seed`.
    pub fn from_seed(seed: u64) -> (r: Self)
        ensures
            r.start() == seed,
    {
        SplitMix64 { state: atomic_u64_new(seed), start: Ghost(seed) }
    }

    /// Advances the shared state by [`SPLITMIX_GAMMA`] and scrambles the state
    /// it advanced from into the next value.
    pub fn next_u64(&self) -> (r: u64)
        ensures
            exists|v: u64| r == spec_splitmix_output(v),
    {
        let v = atomic_u64_fetch_add(&self.state, SPLITMIX_GAMMA, Ordering::Relaxed);
        splitmix_output(v)
    }
}

impl Default for SplitMix64 {
    fn default() -> (r: Self)
        ensures
            r.start() == SPLITMIX_GAMMA,
    {
        SplitMix64::from_seed(SPLITMIX_GAMMA)
    }
}

/// A random number generator that hands out independent generators to forked threads.
pub struct PerThreadRng {
    rng: SmallRng,
    current_seed: SplitMix64,
    rng_seed: Ghost<u64>,
}

impl Default for PerThreadRng {
    fn default() -> (r: Self)
        ensures
            r.is_fresh(),
    {
        PerThreadRng { rng: small_rng_from_seed(0), current_seed: SplitMix64::default(), rng_seed: Ghost(0) }
    }
}

impl core::ops::Deref for PerThreadRng {
    type Target = SmallRng;

    fn deref(&self) -> (r: &SmallRng)
        ensures
            *r == self.generator(),
    {
        &self.rng
    }
}

impl core::ops::DerefMut for PerThreadRng {
    fn deref_mut(&mut self) -> (r: &mut SmallRng)
        ensures
            *r == old(self).generator(),
            final(self).generator() == *final(r),
            final(self).seeds() == old(self).seeds(),
            final(self).rng_seed() == old(self).rng_seed(),
    {
        &mut self.rng
    }
}

impl PerThreadRng {
    /// The generator that hands out this thread's random numbers.
    pub closed spec fn generator(&self) -> SmallRng {
        self.rng
    }

    /// The seed sequence that forked generators are seeded from.
    pub closed spec fn seeds(&self) -> SplitMix64 {
        self.current_seed
    }

    /// The seed this thread's generator was created with (a generator put in
    /// its place through `DerefMut` keeps this record).
    pub closed spec fn rng_seed(&self) -> u64 {
        self.rng_seed@
    }

    /// A generator made by `default`: its generator is seeded with 0 and its
    /// seed sequence starts at [`SPLITMIX_GAMMA`].
    pub open spec fn is_fresh(&self) -> bool {
        &&& self.rng_seed() == 0
        &&& self.seeds().start() == SPLITMIX_GAMMA
    }

    /// A generator made by `fork_thread`: its generator and its seed sequence
    /// are both seeded with one value of the parent's seed sequence.
    pub open spec fn is_forked(&self) -> bool {
        &&& self.rng_seed() == self.seeds().start()
        &&& exists|v: u64| self.rng_seed() == spec_splitmix_output(v)
    }

    /// A generator for a new thread, seeded from the next value of this one's seed sequence.
    pub fn fork_thread(&self) -> (r: Self)
        ensures
            r.is_forked(),
    {
        let my_seed = self.current_seed.next_u64();
        PerThreadRng {
            rng: small_rng_from_seed(my_seed),
            current_seed: SplitMix64::from_seed(my_seed),
            rng_seed: Ghost(my_seed),
        }
    }

    /// A random index below `bound`.
    pub fn random_below(&mut self, bound: usize) -> (r: usize)
        requires
            bound > 0,
        ensures
            r < bound,
            final(self).seeds() == old(self).seeds(),
            final(self).rng_seed() == old(self).rng_seed(),
    {
        small_rng_below(&mut self.rng, bound)
    }
}

/// A random strategy: every arm is equally likely.
///
/// This strategy does not promise a bound on rank error or delay.
pub struct RandomAccess;

impl Default for RandomAccess {
    fn default() -> Self {
        RandomAccess
    }
}

/// The gambler of [`RandomAccess`]: a per-thread random number generator.
pub struct RandomAccessGambler {
    rng: PerThreadRng,
}

impl RandomAccessGambler {
    /// The generator this gambler draws arms from.
    pub closed spec fn rng(&self) -> PerThreadRng {
        self.rng
    }
}

impl Default for RandomAccessGambler {
    fn default() -> (r: Self)
        ensures
            r.rng().is_fresh(),
    {
        RandomAccessGambler { rng: PerThreadRng::default() }
    }
}

impl<Q: Collection> Strategy<Q> for RandomAccess {
    type Gambler = RandomAccessGambler;

    open spec fn keeps_refusals() -> bool {
        true
    }

    /// No stake is read for a choice.
    open spec fn read_from(&self, after: RandomAccessGambler, holds: spec_fn(int, <Self::Gambler as Hooked>::Stake) -> bool) -> bool {
        true
    }

    open spec fn scans_arms() -> bool {
        true
    }


    open spec fn configured() -> bool {
        true
    }

    /// A forked gambler's generator is seeded from the parent's seed sequence.
    open spec fn forked(&self, parent: RandomAccessGambler, child: RandomAccessGambler) -> bool {
        child.rng().is_forked()
    }

    /// A new gambler has a fresh generator.
    open spec fn created(&self, gambler: RandomAccessGambler) -> bool {
        gambler.rng().is_fresh()
    }

    /// The arm is drawn at random; the gambler's seed sequence is left as it was.
    open spec fn offer_choice(&self, before: RandomAccessGambler, after: RandomAccessGambler, arms: nat, arm: usize) -> bool {
        &&& after.rng().seeds() == before.rng().seeds()
        &&& after.rng().rng_seed() == before.rng().rng_seed()
    }

    open spec fn poll_choice(&self, before: RandomAccessGambler, after: RandomAccessGambler, arms: nat, arm: usize) -> bool {
        &&& after.rng().seeds() == before.rng().seeds()
        &&& after.rng().rng_seed() == before.rng().rng_seed()
    }

    fn choose_offer_arm<SB: StorageBackend<<Self::Gambler as Hooked>::Stake>>(
        &self,
        state: &SB,
        gambler: &mut Self::Gambler,
    ) -> (arm: usize) {
        gambler.rng.random_below(state.len())
    }

    fn choose_poll_arm<SB: StorageBackend<<Self::Gambler as Hooked>::Stake>>(
        &self,
        state: &SB,
        gambler: &mut Self::Gambler,
    ) -> (arm: usize) {
        gambler.rng.random_below(state.len())
    }

    fn fork_gambler(&self, gambler: &Self::Gambler) -> Self::Gambler {
        RandomAccessGambler { rng: gambler.rng.fork_thread() }
    }

    fn create_gambler(&self) -> Self::Gambler {
        RandomAccessGambler::default()
    }
}

impl Hooked for RandomAccessGambler {
    type Stake = NoPad<InstrumentedState<()>>;
    type RequestedPadding = NoPadding;

    open spec fn hooks_keep_gambler() -> bool {
        true
    }

    open spec fn hooks_reach_stake() -> bool {
        true
    }
}

} // verus!
