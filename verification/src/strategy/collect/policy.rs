//! Policies dictating when the stakes must be rechecked by a double collect.
use vstd::prelude::*;

verus! {

/// Which successful operations invalidate a collect in progress.
pub trait InvalidationPolicy {
    /// Does a concurrent successful [`crate::Collection::poll`] invalidate a collect?
    fn invalidate_on_poll() -> bool;

    /// Does a concurrent successful [`crate::Collection::offer`] invalidate a collect?
    fn invalidate_on_offer() -> bool;
}

/// The stakes must be rechecked if a concurrent [`crate::Collection::offer`] succeeds.
pub struct OfferInvalidate;

/// The stakes must be rechecked if a concurrent [`crate::Collection::poll`] succeeds.
pub struct PollInvalidate;

/// The stakes must be rechecked if a concurrent [`crate::Collection::offer`] or
/// [`crate::Collection::poll`] succeeds.
pub struct OfferAndPollInvalidate;

impl InvalidationPolicy for OfferInvalidate {
    fn invalidate_on_poll() -> (r: bool)
        ensures
            !r,
    {
        false
    }

    fn invalidate_on_offer() -> (r: bool)
        ensures
            r,
    {
        true
    }
}

impl InvalidationPolicy for PollInvalidate {
    fn invalidate_on_poll() -> (r: bool)
        ensures
            r,
    {
        true
    }

    fn invalidate_on_offer() -> (r: bool)
        ensures
            !r,
    {
        false
    }
}

impl InvalidationPolicy for OfferAndPollInvalidate {
    fn invalidate_on_poll() -> (r: bool)
        ensures
            r,
    {
        true
    }

    fn invalidate_on_offer() -> (r: bool)
        ensures
            r,
    {
        true
    }
}

} // verus!
