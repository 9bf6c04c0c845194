//! Bandits whose arms and stakes are stored inline, in arrays.
use vstd::prelude::*;

use crate::{
    Collection,
    WithCapacity,
    construction::{Bandit, BanditHandle},
    storage::{OwnedStorage, StorageBackend},
    strategy::{Hooked, Strategy},
};

verus! {

/// Calls `core::array::from_fn`, which builds an array whose slot `i` holds `f(i)`.
#[verifier::external_body]
fn array_from_fn<T, const N: usize, F: Fn(usize) -> T>(f: F) -> (r: [T; N])
    requires
        forall|i: usize| i < N ==> #[trigger] f.requires((i,)),
    ensures
        forall|i: int| 0 <= i < N ==> f.ensures((i as usize,), #[trigger] r@[i]),
{
    core::array::from_fn(f)
}

/// Calls `<Vec<T> as From<[T; N]>>::from`, which moves the items of an array into a vector in order.
#[verifier::external_body]
fn array_into_vec<T, const N: usize>(array: [T; N]) -> (r: Vec<T>)
    ensures
        r@ == array@,
{
    Vec::from(array)
}

/// A new arm for slot `_slot`, created with capacity `SUB_CAP`.
pub(crate) fn fresh_arm<Q: WithCapacity<SUB_CAP>, const SUB_CAP: usize>(_slot: usize) -> (q: Q)
    ensures
        call_ensures(Q::with_capacity, (), q),
{
    Q::with_capacity()
}

/// A default stake for slot `_slot`.
pub(crate) fn fresh_stake<T: Default>(_slot: usize) -> (t: T)
    ensures
        call_ensures(T::default, (), t),
{
    T::default()
}

/// An array of `N` items.
pub struct InlineStorage<T, const N: usize> {
    arr: [T; N],
}

impl<T, const N: usize> View for InlineStorage<T, N> {
    type V = Seq<T>;

    closed spec fn view(&self) -> Seq<T> {
        self.arr@
    }
}

impl<T, const N: usize> InlineStorage<T, N> {
    /// A storage whose slot `i` holds `f(i)`.
    pub fn from_fn<F: Fn(usize) -> T>(f: F) -> (r: Self)
        requires
            forall|i: usize| i < N ==> #[trigger] f.requires((i,)),
        ensures
            r@.len() == N,
            forall|i: int| 0 <= i < N ==> f.ensures((i as usize,), #[trigger] r@[i]),
    {
        InlineStorage { arr: array_from_fn(f) }
    }
}

impl<T: Default, const N: usize> Default for InlineStorage<T, N> {
    fn default() -> (r: Self)
        ensures
            r@.len() == N,
    {
        InlineStorage::from_fn(|_i: usize| T::default())
    }
}

impl<T, const N: usize> StorageBackend<T> for InlineStorage<T, N> {
    closed spec fn spec_len(&self) -> nat {
        N as nat
    }

    fn len(&self) -> (r: usize) {
        N
    }

    open spec fn holds_at(&self, i: int, item: T) -> bool {
        item == self@[i]
    }

    fn get(&self, index: usize) -> (r: &T)
        ensures
            *r == self@[index as int],
    {
        &self.arr[index]
    }
}

impl<T, const N: usize> OwnedStorage<T> for InlineStorage<T, N> {
    fn into_vec(self) -> (r: Vec<T>)
        ensures
            r@ == self@,
    {
        array_into_vec(self.arr)
    }
}

/// A handle to an [`InlineBandit`].
pub type InlineBanditHandle<'a, Q, S, const N: usize, const SUB_CAP: usize> = BanditHandle<
    'a,
    Q,
    S,
    InlineStorage<Q, N>,
    InlineStorage<<<S as Strategy<Q>>::Gambler as Hooked>::Stake, N>,
    SUB_CAP,
>;

/// A bandit of `N` arms stored inline.
pub type InlineBandit<Q, S, const N: usize, const SUB_CAP: usize> = Bandit<
    Q,
    S,
    InlineStorage<Q, N>,
    InlineStorage<<<S as Strategy<Q>>::Gambler as Hooked>::Stake, N>,
    SUB_CAP,
>;

impl<Q, S, const N: usize, const SUB_CAP: usize> Bandit<
    Q,
    S,
    InlineStorage<Q, N>,
    InlineStorage<<S::Gambler as Hooked>::Stake, N>,
    SUB_CAP,
> where Q: Collection + WithCapacity<SUB_CAP>, S: Strategy<Q> + Default {
    /// Constructs a bandit of `N` arms, each created with capacity `SUB_CAP`,
    /// and a default stake for each arm.
    pub fn new() -> (r: Self)
        requires
            N > 0,
            SUB_CAP > 0,
            S::configured(),
        ensures
            r.spec_arm_count() == N,
            forall|i: int| 0 <= i < N ==> call_ensures(Q::with_capacity, (), #[trigger] r.arms()@[i]),
            forall|i: int| 0 <= i < N ==> call_ensures(<S::Gambler as Hooked>::Stake::default, (), #[trigger] r.stakes()@[i]),
    {
        let arms: InlineStorage<Q, N> = InlineStorage::from_fn(fresh_arm::<Q, SUB_CAP>);
        let stakes: InlineStorage<<S::Gambler as Hooked>::Stake, N> = InlineStorage::from_fn(
            fresh_stake::<<S::Gambler as Hooked>::Stake>,
        );
        Bandit::new_with(arms, stakes)
    }
}

} // verus!
