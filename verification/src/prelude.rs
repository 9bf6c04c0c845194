//! Types that suffice for standard usage.
pub use crate::{
    BoxedBandit,
    BoxedBanditHandle,
    Collection,
    InlineBandit,
    InlineBanditHandle,
    Signature,
    strategy::{DCBO, DRA, DoubleCollect, NoCollect, RandomAccess, RoundRobin},
};
