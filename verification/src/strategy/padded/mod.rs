//! Memory layout of the stakes held in the arms of a bandit.
use vstd::prelude::*;
use crossbeam_utils::CachePadded;

use crate::{
    strategy::{Hook, collect::StakeView},
    sync::cache_padded_get,
};

pub mod type_eval;

use type_eval::{Eval, False, True, Truthiness};

verus! {

/// Marks the types that may request padding; only this crate implements it.
pub(crate) trait Sealed {
}

/// Specifies which kind of padding a stake requests at the storage level.
pub trait PaddingRequest: Sealed {
    /// Does this request ask for the stake to be padded to a cache line?
    fn requests_padding() -> bool;
}

impl<T: Hook> Hook for CachePadded<T> {
    fn on_offer_succ(&self) {
        cache_padded_get(self).on_offer_succ();
    }

    fn on_offer_fail(&self) {
        cache_padded_get(self).on_offer_fail();
    }

    fn on_poll_succ(&self) {
        cache_padded_get(self).on_poll_succ();
    }

    fn on_poll_fail(&self) {
        cache_padded_get(self).on_poll_fail();
    }
}

/// A transparent wrapper around a `T`, without padding.
pub struct NoPad<T>(T);

impl<T> NoPad<T> {
    /// The wrapped value, as a mathematical value.
    pub closed spec fn wrapped(&self) -> T {
        self.0
    }

}

impl<T> StakeView<T> for NoPad<T> {
    open spec fn projects_to(&self, stake: T) -> bool {
        stake == self.wrapped()
    }

    fn project(&self) -> (r: &T) {
        &self.0
    }
}

impl<T> AsRef<T> for NoPad<T> {
    fn as_ref(&self) -> (r: &T)
        ensures
            *r == self.wrapped(),
    {
        &self.0
    }
}

impl<T> AsMut<T> for NoPad<T> {
    fn as_mut(&mut self) -> (r: &mut T)
        ensures
            *r == old(self).wrapped(),
            final(self).wrapped() == *final(r),
    {
        &mut self.0
    }
}

impl<T: Default> Default for NoPad<T> {
    fn default() -> Self {
        NoPad(T::default())
    }
}

impl<T: Clone> Clone for NoPad<T> {
    fn clone(&self) -> (r: Self)
        ensures
            call_ensures(T::clone, (&self.wrapped(),), r.wrapped()),
    {
        NoPad(self.0.clone())
    }
}

impl<T: Hook> Hook for NoPad<T> {
    fn on_offer_succ(&self) {
        self.project().on_offer_succ();
    }

    fn on_offer_fail(&self) {
        self.project().on_offer_fail();
    }

    fn on_poll_succ(&self) {
        self.project().on_poll_succ();
    }

    fn on_poll_fail(&self) {
        self.project().on_poll_fail();
    }
}

/// A transparent wrapper around a `T`.
pub struct TypeView<T>(T);

impl<T> TypeView<T> {
    /// The wrapped value, as a mathematical value.
    pub closed spec fn wrapped(&self) -> T {
        self.0
    }

}

impl<T> core::ops::Deref for TypeView<T> {
    type Target = T;

    fn deref(&self) -> (r: &T)
        ensures
            *r == self.wrapped(),
    {
        &self.0
    }
}

impl<T> core::ops::DerefMut for TypeView<T> {
    fn deref_mut(&mut self) -> (r: &mut T)
        ensures
            *r == old(self).wrapped(),
            final(self).wrapped() == *final(r),
    {
        &mut self.0
    }
}

impl<T> AsRef<T> for TypeView<T> {
    fn as_ref(&self) -> (r: &T)
        ensures
            *r == self.wrapped(),
    {
        &self.0
    }
}

impl<T> AsMut<T> for TypeView<T> {
    fn as_mut(&mut self) -> (r: &mut T)
        ensures
            *r == old(self).wrapped(),
            final(self).wrapped() == *final(r),
    {
        &mut self.0
    }
}

impl<T> StakeView<T> for TypeView<T> {
    open spec fn projects_to(&self, stake: T) -> bool {
        stake == self.wrapped()
    }

    fn project(&self) -> (r: &T) {
        &self.0
    }
}

impl<T: Default> Default for TypeView<T> {
    fn default() -> Self {
        TypeView(T::default())
    }
}

impl<T: Hook> Hook for TypeView<T> {
    fn on_offer_succ(&self) {
        self.0.on_offer_succ();
    }

    fn on_offer_fail(&self) {
        self.0.on_offer_fail();
    }

    fn on_poll_succ(&self) {
        self.0.on_poll_succ();
    }

    fn on_poll_fail(&self) {
        self.0.on_poll_fail();
    }
}

/// Request for padding in the form of a `CachePadded` stake.
pub struct RequiresPadding;

impl Sealed for RequiresPadding {
}

impl PaddingRequest for RequiresPadding {
    fn requests_padding() -> (r: bool)
        ensures
            r,
    {
        true
    }
}

/// This stake requires no padding.
pub struct NoPadding;

impl Sealed for NoPadding {
}

impl PaddingRequest for NoPadding {
    fn requests_padding() -> (r: bool)
        ensures
            !r,
    {
        false
    }
}

impl Eval for NoPadding {
    type Output = NoPadding;
}

impl Eval for RequiresPadding {
    type Output = RequiresPadding;
}

impl Truthiness for NoPadding {
    type IsTruthy = False;
}

impl Truthiness for RequiresPadding {
    type IsTruthy = True;
}

} // verus!
