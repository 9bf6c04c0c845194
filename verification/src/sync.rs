//! Atomic counters and cache padding, provided by outside crates.
//!
//! The values held by the atomics are shared between threads, so nothing about
//! what a load returns can be stated here: the contracts below only describe
//! the shape of each call.
use vstd::prelude::*;
use core::sync::atomic::Ordering;
use crossbeam_utils::CachePadded;
use portable_atomic::{AtomicU64, AtomicUsize};

verus! {

#[verifier::external_type_specification]
#[verifier::external_body]
pub struct ExAtomicUsize(AtomicUsize);

#[verifier::external_type_specification]
#[verifier::external_body]
pub struct ExAtomicU64(AtomicU64);

#[verifier::external_type_specification]
#[verifier::external_body]
#[verifier::reject_recursive_types(T)]
pub struct ExCachePadded<T>(CachePadded<T>);

/// Calls `portable_atomic::AtomicUsize::new`: a fresh counter holding `value`.
/// The counter is opaque to verified code, so nothing is claimed of it.
#[verifier::external_body]
pub(crate) fn atomic_usize_new(value: usize) -> AtomicUsize {
    AtomicUsize::new(value)
}

/// Calls `portable_atomic::AtomicUsize::load`, which panics for the orderings
/// `Release` and `AcqRel`. Other threads may change the counter at any time,
/// so the returned value is left unconstrained.
#[verifier::external_body]
pub(crate) fn atomic_usize_load(atomic: &AtomicUsize, order: Ordering) -> usize
    requires
        !(order is Release),
        !(order is AcqRel),
{
    atomic.load(order)
}

/// Calls `portable_atomic::AtomicUsize::fetch_add`, which adds `value` with
/// wrap-around and hands back the previous value; that previous value depends
/// on other threads, so it is left unconstrained.
#[verifier::external_body]
pub(crate) fn atomic_usize_fetch_add(atomic: &AtomicUsize, value: usize, order: Ordering) -> usize {
    atomic.fetch_add(value, order)
}

/// Calls `portable_atomic::AtomicU64::new`: a fresh 64-bit counter holding `value`.
#[verifier::external_body]
pub(crate) fn atomic_u64_new(value: u64) -> AtomicU64 {
    AtomicU64::new(value)
}

/// Calls `portable_atomic::AtomicU64::fetch_add` (wrap-around addition); the
/// previous value it returns depends on other threads and is left unconstrained.
#[verifier::external_body]
pub(crate) fn atomic_u64_fetch_add(atomic: &AtomicU64, value: u64, order: Ordering) -> u64 {
    atomic.fetch_add(value, order)
}

/// Calls `Deref::deref` of `crossbeam_utils::CachePadded`: a reference to the
/// padded value. The padded type is opaque here, so the reference is not
/// related to anything by a clause.
#[verifier::external_body]
pub(crate) fn cache_padded_get<T>(padded: &CachePadded<T>) -> &T {
    &**padded
}

} // verus!
