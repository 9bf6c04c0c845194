//! `kasino` is a framework for building high-contention concurrent data structures.
//!
//! Operations are distributed over several sub-collections ("arms") by a
//! [`strategy::Strategy`], which reduces cache-line invalidation and thread
//! contention at the price of a relaxed specification.
use vstd::prelude::*;

pub mod boxed;
pub mod components;
pub mod construction;
pub mod inline;
pub mod prelude;
pub mod storage;
pub mod strategy;
mod sync;
pub mod topology;

pub use boxed::{BoxedBandit, BoxedBanditHandle, BoxedStorage};
pub use construction::{Bandit, BanditHandle};
pub use inline::{InlineBandit, InlineBanditHandle, InlineStorage};

verus! {

/// Describes the input, the successful output and the error of a failable method.
pub trait Signature {
    /// The input.
    type Input;
    /// The successful output.
    type Output;
    /// The error.
    type Error;
}

/// The interface of a generic (concurrent) data structure.
///
/// Implementations typically use interior mutability, so the outcome of a call
/// is decided by the state shared with other threads.
pub trait Collection {
    /// The signature of [`Collection::offer`].
    type OfferSignature: Signature;
    /// The signature of [`Collection::poll`].
    type PollSignature: Signature;

    /// Holds when `err` is an error that [`Collection::offer`] may hand back for
    /// `item`. A collection that promises nothing of its errors leaves it true.
    open spec fn refusal_of(
        item: <Self::OfferSignature as Signature>::Input,
        err: <Self::OfferSignature as Signature>::Error,
    ) -> bool {
        true
    }

    /// Attempt to act on this collection.
    fn offer(
        &self,
        item: <Self::OfferSignature as Signature>::Input,
    ) -> (r: Result<
        <Self::OfferSignature as Signature>::Output,
        <Self::OfferSignature as Signature>::Error,
    >)
        ensures
            r matches Err(e) ==> Self::refusal_of(item, e),
    ;

    /// Attempt to act on this collection in a constrained way.
    ///
    /// `poll` may be called several times per poll of a bandit, with a copy of
    /// the same input.
    fn poll(
        &self,
        input: <Self::PollSignature as Signature>::Input,
    ) -> Result<
        <Self::PollSignature as Signature>::Output,
        <Self::PollSignature as Signature>::Error,
    >;

    /// The number of items in the collection.
    fn len(&self) -> usize;

    /// The capacity of the collection.
    fn capacity(&self) -> usize;

    /// Is the collection empty?
    fn is_empty(&self) -> bool {
        self.len() == 0
    }
}

/// A collection that can be created with a static capacity `N`.
pub trait WithCapacity<const N: usize>: Sized {
    /// Constructs a new collection with capacity `N`.
    fn with_capacity() -> Self;
}

} // verus!
