//! Hardware-aware strategies: gamblers pinned to a core always pull the same arm.
use vstd::prelude::*;
use core::marker::PhantomData;

use crate::{
    Collection,
    Signature,
    storage::StorageBackend,
    strategy::{Hooked, Strategy, padded::NoPadding},
};

verus! {

/// The identifier of a processor core.
#[derive(Debug, Default, PartialEq, Eq, Structural, PartialOrd, Ord, Clone, Copy, Hash)]
pub struct CoreID(pub usize);

/// Access to the cores of the machine the program runs on.
pub trait RuntimeData {
    /// The error of a failed query.
    type Error;

    /// The core the current thread is pinned to.
    fn get_affinity() -> Result<CoreID, Self::Error>;

    /// Pins the current thread to core `id`.
    fn set_affinity(id: CoreID) -> Result<(), Self::Error>;

    /// The cores available to the program.
    fn available_cores() -> Vec<CoreID>;

    /// The number of threads that can run in parallel; never zero.
    fn available_parallelism() -> (r: Result<usize, Self::Error>)
        ensures
            r matches Ok(n) ==> n > 0,
    ;
}

/// A strategy that pulls the arm of the core a gambler is pinned to.
pub struct CorePinned<R> {
    _dat: PhantomData<R>,
}

impl<R> Default for CorePinned<R> {
    fn default() -> Self {
        CorePinned { _dat: PhantomData }
    }
}

/// The gambler of [`CorePinned`]: the core it is pinned to.
pub struct CorePinnedGambler<R> {
    affinity: CoreID,
    _dat: PhantomData<R>,
}

impl<R> Copy for CorePinnedGambler<R> {
}

impl<R> Clone for CorePinnedGambler<R> {
    fn clone(&self) -> (r: Self)
        ensures
            r.affinity() == self.affinity(),
    {
        CorePinnedGambler { affinity: self.affinity, _dat: PhantomData }
    }
}

impl<R> CorePinnedGambler<R> {
    /// The core this gambler is pinned to.
    pub closed spec fn affinity(&self) -> CoreID {
        self.affinity
    }

    /// The arm this gambler pulls among `arms` arms: its core's number modulo `arms`.
    pub fn pinned_arm(&self, arms: usize) -> (arm: usize)
        requires
            arms > 0,
        ensures
            arm == self.affinity().0 % arms,
    {
        self.affinity.0 % arms
    }
}

impl<R: RuntimeData> CorePinnedGambler<R> {
    /// Pins this gambler to `core`.
    pub fn pin_thread(&mut self, core: CoreID)
        ensures
            final(self).affinity() == core,
    {
        self.affinity = core;
    }
}

impl<Q: Collection, R: RuntimeData> Strategy<Q> for CorePinned<R> {
    type Gambler = CorePinnedGambler<R>;

    open spec fn keeps_refusals() -> bool {
        true
    }

    /// No stake is read for a choice.
    open spec fn read_from(&self, after: CorePinnedGambler<R>, holds: spec_fn(int, <Self::Gambler as Hooked>::Stake) -> bool) -> bool {
        true
    }

    open spec fn scans_arms() -> bool {
        false
    }


    open spec fn configured() -> bool {
        true
    }

    open spec fn forked(&self, parent: CorePinnedGambler<R>, child: CorePinnedGambler<R>) -> bool {
        child.affinity() == parent.affinity()
    }

    open spec fn created(&self, gambler: CorePinnedGambler<R>) -> bool {
        gambler.affinity() == CoreID(0)
    }

    /// Both offers and polls pull the arm of the gambler's core; the gambler is left as it was.
    open spec fn offer_choice(&self, before: CorePinnedGambler<R>, after: CorePinnedGambler<R>, arms: nat, arm: usize) -> bool {
        &&& arm as int == before.affinity().0 as int % arms as int
        &&& after == before
    }

    open spec fn poll_choice(&self, before: CorePinnedGambler<R>, after: CorePinnedGambler<R>, arms: nat, arm: usize) -> bool {
        &&& arm as int == before.affinity().0 as int % arms as int
        &&& after == before
    }

    fn choose_offer_arm<SB: StorageBackend<<Self::Gambler as Hooked>::Stake>>(
        &self,
        state: &SB,
        gambler: &mut Self::Gambler,
    ) -> (arm: usize) {
        gambler.pinned_arm(state.len())
    }

    fn choose_poll_arm<SB: StorageBackend<<Self::Gambler as Hooked>::Stake>>(
        &self,
        state: &SB,
        gambler: &mut Self::Gambler,
    ) -> (arm: usize) {
        gambler.pinned_arm(state.len())
    }

    fn fork_gambler(&self, parent: &Self::Gambler) -> Self::Gambler {
        *parent
    }

    fn create_gambler(&self) -> Self::Gambler {
        CorePinnedGambler { affinity: CoreID(0), _dat: PhantomData }
    }

    fn on_poll_fail<SB: StorageBackend<<Self::Gambler as Hooked>::Stake>, AB: StorageBackend<Q>>(
        &self,
        state: &SB,
        bandit_arms: &AB,
        input: <Q::PollSignature as Signature>::Input,
    ) -> (r: Option<(<Q::PollSignature as Signature>::Output, usize)>)
        where <Q::PollSignature as Signature>::Input: Copy
        ensures
            r is None,
    {
        None
    }

    fn on_offer_fail<SB: StorageBackend<<Self::Gambler as Hooked>::Stake>, AB: StorageBackend<Q>>(
        &self,
        state: &SB,
        bandit_arms: &AB,
        input: <Q::OfferSignature as Signature>::Error,
    ) -> (r: Result<
        (<Q::OfferSignature as Signature>::Output, usize),
        <Q::OfferSignature as Signature>::Error,
    >)
        ensures
            r matches Err(e) && e == input,
    {
        Err(input)
    }
}

impl<R> Hooked for CorePinnedGambler<R> {
    type Stake = ();
    type RequestedPadding = NoPadding;

    open spec fn hooks_keep_gambler() -> bool {
        true
    }

    open spec fn hooks_reach_stake() -> bool {
        true
    }
}

} // verus!
