//! Helpers for implementing the [`Collection`] trait.
use vstd::prelude::*;
use core::marker::PhantomData;

use crate::{Collection, Signature};

verus! {

/// A method that takes a `T` by value and hands it back on an error.
pub struct ValueSig<T>(PhantomData<T>);

impl<T> Signature for ValueSig<T> {
    type Input = T;
    type Output = ();
    type Error = T;
}

/// A method that takes nothing and returns a `T` on success.
pub struct PopSig<T>(PhantomData<T>);

impl<T> Signature for PopSig<T> {
    type Input = ();
    type Output = T;
    type Error = ();
}

/// A method that takes no arguments and returns unit values.
pub struct Unit;

impl Signature for Unit {
    type Input = ();
    type Output = ();
    type Error = ();
}

/// A collection which one pushes items to and pops items from.
pub trait PushPopCollection {
    /// The type of item stored in this collection.
    type Item;

    /// Pushes an item to the collection; hands the item back on an error.
    fn push(&self, item: Self::Item) -> (r: Result<(), Self::Item>)
        ensures
            r matches Err(back) ==> back == item,
    ;

    /// Tries to pop an item from the collection.
    fn pop(&self) -> Option<Self::Item>;

    /// The number of items in the collection.
    fn len(&self) -> usize;

    /// The capacity of the collection; unbounded unless overridden.
    fn capacity(&self) -> (r: usize)
        default_ensures
            r == usize::MAX,
    {
        usize::MAX
    }

    /// Is the collection empty?
    fn is_empty(&self) -> bool {
        self.len() == 0
    }
}

impl<Q> Collection for Q where Q: PushPopCollection {
    type OfferSignature = ValueSig<Q::Item>;
    type PollSignature = PopSig<Q::Item>;

    /// A push hands back the item it refused.
    open spec fn refusal_of(item: Q::Item, err: Q::Item) -> bool {
        err == item
    }

    /// Offering is pushing.
    fn offer(&self, item: Q::Item) -> (r: Result<(), Q::Item>)
        ensures
            call_ensures(<Q as PushPopCollection>::push, (self, item), r),
    {
        self.push(item)
    }

    /// Polling is popping: a popped item is a success, nothing popped a failure.
    fn poll(&self, _input: ()) -> (r: Result<Q::Item, ()>)
        ensures
            exists|popped: Option<Q::Item>| #[trigger] call_ensures(<Q as PushPopCollection>::pop, (self,), popped)
                && r == match popped {
                    Some(item) => Ok::<Q::Item, ()>(item),
                    None => Err(()),
                },
    {
        let popped = self.pop();
        proof {
            assert(call_ensures(<Q as PushPopCollection>::pop, (self,), popped));
        }
        match popped {
            Some(item) => Ok(item),
            None => Err(()),
        }
    }

    /// The length is what the push-pop collection reports.
    fn len(&self) -> (r: usize)
        ensures
            call_ensures(<Q as PushPopCollection>::len, (self,), r),
    {
        PushPopCollection::len(self)
    }

    /// The capacity is what the push-pop collection reports.
    fn capacity(&self) -> (r: usize)
        ensures
            call_ensures(<Q as PushPopCollection>::capacity, (self,), r),
    {
        PushPopCollection::capacity(self)
    }

    /// Emptiness is what the push-pop collection reports.
    fn is_empty(&self) -> (r: bool)
        ensures
            call_ensures(<Q as PushPopCollection>::is_empty, (self,), r),
    {
        PushPopCollection::is_empty(self)
    }
}

/// A push-pop collection used as a [`Collection`] reports its own length: a
/// value that [`Collection::len`] returned is one that
/// [`PushPopCollection::len`] returned.
pub proof fn lemma_len_is_push_pop_len<Q: PushPopCollection>(q: Q, v: usize)
    requires
        call_ensures(<Q as Collection>::len, (&q,), v),
    ensures
        call_ensures(<Q as PushPopCollection>::len, (&q,), v),
{
}

/// A push-pop collection used as a [`Collection`] reports its own capacity: a
/// value that [`Collection::capacity`] returned is one that
/// [`PushPopCollection::capacity`] returned.
pub proof fn lemma_capacity_is_push_pop_capacity<Q: PushPopCollection>(q: Q, v: usize)
    requires
        call_ensures(<Q as Collection>::capacity, (&q,), v),
    ensures
        call_ensures(<Q as PushPopCollection>::capacity, (&q,), v),
{
}

} // verus!
