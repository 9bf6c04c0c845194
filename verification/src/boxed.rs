//! Bandits whose arms and stakes are stored on the heap, with a length chosen at run time.
use vstd::prelude::*;

use crate::{
    Collection,
    WithCapacity,
    construction::{Bandit, BanditHandle},
    inline::{fresh_arm, fresh_stake},
    storage::{OwnedStorage, StorageBackend},
    strategy::{Hooked, Strategy},
};

verus! {

/// A heap-allocated sequence of items whose length is fixed at construction.
pub struct BoxedStorage<T> {
    arr: Vec<T>,
}

impl<T> View for BoxedStorage<T> {
    type V = Seq<T>;

    closed spec fn view(&self) -> Seq<T> {
        self.arr@
    }
}

impl<T> BoxedStorage<T> {
    /// A storage of `size` slots whose slot `i` holds `f(i)`.
    pub(crate) fn from_fn_and_size<F: Fn(usize) -> T>(f: F, size: usize) -> (r: Self)
        requires
            forall|i: usize| i < size ==> #[trigger] f.requires((i,)),
        ensures
            r@.len() == size,
            forall|i: int| 0 <= i < size ==> f.ensures((i as usize,), #[trigger] r@[i]),
    {
        let mut arr: Vec<T> = Vec::new();
        let mut i: usize = 0;
        while i < size
            invariant
                i <= size,
                arr.len() == i,
                forall|k: usize| k < size ==> #[trigger] f.requires((k,)),
                forall|j: int| 0 <= j < i ==> f.ensures((j as usize,), #[trigger] arr@[j]),
            decreases size - i,
        {
            arr.push(f(i));
            i = i + 1;
        }
        BoxedStorage { arr }
    }
}

impl<T> Default for BoxedStorage<T> {
    fn default() -> (r: Self)
        ensures
            r@.len() == 0,
    {
        BoxedStorage { arr: Vec::new() }
    }
}

impl<T> StorageBackend<T> for BoxedStorage<T> {
    closed spec fn spec_len(&self) -> nat {
        self.arr@.len()
    }

    fn len(&self) -> (r: usize) {
        self.arr.len()
    }

    open spec fn holds_at(&self, i: int, item: T) -> bool {
        item == self@[i]
    }

    fn get(&self, index: usize) -> (r: &T)
        ensures
            *r == self@[index as int],
    {
        &self.arr[index]
    }
}

impl<T> OwnedStorage<T> for BoxedStorage<T> {
    fn into_vec(self) -> (r: Vec<T>)
        ensures
            r@ == self@,
    {
        self.arr
    }
}

/// A handle to a [`BoxedBandit`].
pub type BoxedBanditHandle<'a, Q, S, const SUB_CAP: usize> = BanditHandle<
    'a,
    Q,
    S,
    BoxedStorage<Q>,
    BoxedStorage<<<S as Strategy<Q>>::Gambler as Hooked>::Stake>,
    SUB_CAP,
>;

/// A bandit whose arms are stored on the heap.
pub type BoxedBandit<Q, S, const SUB_CAP: usize> = Bandit<
    Q,
    S,
    BoxedStorage<Q>,
    BoxedStorage<<<S as Strategy<Q>>::Gambler as Hooked>::Stake>,
    SUB_CAP,
>;

impl<Q, S, const SUB_CAP: usize> Bandit<
    Q,
    S,
    BoxedStorage<Q>,
    BoxedStorage<<S::Gambler as Hooked>::Stake>,
    SUB_CAP,
> where Q: Collection + WithCapacity<SUB_CAP>, S: Strategy<Q> + Default {
    /// Constructs a bandit of `n_cores` arms, each created with capacity
    /// `SUB_CAP`, and a default stake for each arm.
    pub fn new(n_cores: usize) -> (r: Self)
        requires
            n_cores > 0,
            SUB_CAP > 0,
            S::configured(),
        ensures
            r.spec_arm_count() == n_cores,
            forall|i: int| 0 <= i < n_cores ==> call_ensures(Q::with_capacity, (), #[trigger] r.arms()@[i]),
            forall|i: int| 0 <= i < n_cores ==> call_ensures(<S::Gambler as Hooked>::Stake::default, (), #[trigger] r.stakes()@[i]),
    {
        let arms: BoxedStorage<Q> = BoxedStorage::from_fn_and_size(fresh_arm::<Q, SUB_CAP>, n_cores);
        let stakes: BoxedStorage<<S::Gambler as Hooked>::Stake> = BoxedStorage::from_fn_and_size(
            fresh_stake::<<S::Gambler as Hooked>::Stake>,
            n_cores,
        );
        Bandit::new_with(arms, stakes)
    }
}

} // verus!
