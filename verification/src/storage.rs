//! Storage abstractions for the arms of a bandit and their stakes.
use vstd::prelude::*;

verus! {

/// A fixed-length, indexable storage.
pub trait StorageBackend<T> {
    /// The number of slots, as a mathematical value.
    spec fn spec_len(&self) -> nat;

    /// Holds when `item` is what slot `i` hands out.
    spec fn holds_at(&self, i: int, item: T) -> bool;

    /// The number of slots in the storage.
    fn len(&self) -> (r: usize)
        ensures
            r == self.spec_len(),
    ;

    /// A reference to the item in slot `index`.
    fn get(&self, index: usize) -> (r: &T)
        requires
            index < self.spec_len(),
        ensures
            self.holds_at(index as int, *r),
    ;

    /// Is the storage empty?
    fn is_empty(&self) -> (r: bool)
        ensures
            r == (self.spec_len() == 0),
    {
        self.len() == 0
    }
}

/// A storage that owns its items and can hand them out.
pub trait OwnedStorage<T>: StorageBackend<T> + Sized {
    /// Consumes the storage and hands out its items in slot order.
    fn into_vec(self) -> (r: Vec<T>)
        ensures
            r.len() == self.spec_len(),
            forall|i: int| 0 <= i < r.len() ==> self.holds_at(i, #[trigger] r@[i]),
    ;
}

} // verus!
