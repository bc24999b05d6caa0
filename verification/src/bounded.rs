//! The bounded container that holds one side of an image or of the merged
//! book, and what is taken on trust about it.

use arrayvec::ArrayVec;
use vstd::prelude::*;

use crate::market_data_source::{MarketDatSourceLevel, DEFAULT_DEPTH};
use crate::orderbook::Level;

verus! {

/// A vector of a capacity that is fixed by its type. The library reads and
/// fills it only through the functions below.
#[verifier::external_type_specification]
#[verifier::external_body]
#[verifier::reject_recursive_types(T)]
pub struct ExArrayVec<T, const CAP: usize>(ArrayVec<T, CAP>);

/// The levels that a side holds, first to last.
pub uninterp spec fn side_levels(side: ArrayVec<MarketDatSourceLevel, DEFAULT_DEPTH>) -> Seq<MarketDatSourceLevel>;

/// `ArrayVec::new`: the new container holds nothing.
#[verifier::external_body]
pub(crate) fn side_new() -> (side: ArrayVec<MarketDatSourceLevel, DEFAULT_DEPTH>)
    ensures
        side_levels(side) == Seq::<MarketDatSourceLevel>::empty(),
{
    ArrayVec::new()
}

/// `ArrayVec::is_full`: whether the container holds as many levels as its
/// capacity, `DEFAULT_DEPTH`, allows. It never holds more, so one that is
/// not full holds fewer.
#[verifier::external_body]
pub(crate) fn side_is_full(side: &ArrayVec<MarketDatSourceLevel, DEFAULT_DEPTH>) -> (full: bool)
    ensures
        full == (side_levels(*side).len() == DEFAULT_DEPTH),
        !full ==> side_levels(*side).len() < DEFAULT_DEPTH,
{
    side.is_full()
}

/// `ArrayVec::push`: the level is added behind the others. The call panics
/// on a full container, which the precondition leaves out.
#[verifier::external_body]
pub(crate) fn side_push(side: &mut ArrayVec<MarketDatSourceLevel, DEFAULT_DEPTH>, level: MarketDatSourceLevel)
    requires
        side_levels(*old(side)).len() < DEFAULT_DEPTH,
    ensures
        side_levels(*final(side)) == side_levels(*old(side)).push(level),
{
    side.push(level)
}

/// `ArrayVec::as_slice`: the levels held, in order; never more of them than
/// the capacity.
#[verifier::external_body]
pub(crate) fn side_as_slice(side: &ArrayVec<MarketDatSourceLevel, DEFAULT_DEPTH>) -> (levels: &[MarketDatSourceLevel])
    ensures
        levels@ == side_levels(*side),
        levels@.len() <= DEFAULT_DEPTH,
{
    side.as_slice()
}

/// `Clone::clone` of an `ArrayVec`: the copy holds clones of the same levels
/// in the same order, and a level is cloned by copying its two fields.
#[verifier::external_body]
pub(crate) fn side_clone(side: &ArrayVec<MarketDatSourceLevel, DEFAULT_DEPTH>) -> (copy: ArrayVec<MarketDatSourceLevel, DEFAULT_DEPTH>)
    ensures
        side_levels(copy) == side_levels(*side),
{
    side.clone()
}

/// The published levels that a merged side holds, first to last.
pub uninterp spec fn merged_levels(side: ArrayVec<Level, DEFAULT_DEPTH>) -> Seq<Level>;

/// `ArrayVec::new`, for a merged side: the new container holds nothing.
#[verifier::external_body]
pub(crate) fn merged_new() -> (side: ArrayVec<Level, DEFAULT_DEPTH>)
    ensures
        merged_levels(side) == Seq::<Level>::empty(),
{
    ArrayVec::new()
}

/// `ArrayVec::is_full`, for a merged side: whether the container holds as
/// many levels as its capacity, `DEFAULT_DEPTH`, allows. It never holds
/// more, so one that is not full holds fewer.
#[verifier::external_body]
pub(crate) fn merged_is_full(side: &ArrayVec<Level, DEFAULT_DEPTH>) -> (full: bool)
    ensures
        full == (merged_levels(*side).len() == DEFAULT_DEPTH),
        !full ==> merged_levels(*side).len() < DEFAULT_DEPTH,
{
    side.is_full()
}

/// `ArrayVec::push`, for a merged side: the level is added behind the
/// others. The call panics on a full container, which the precondition
/// leaves out.
#[verifier::external_body]
pub(crate) fn merged_push(side: &mut ArrayVec<Level, DEFAULT_DEPTH>, level: Level)
    requires
        merged_levels(*old(side)).len() < DEFAULT_DEPTH,
    ensures
        merged_levels(*final(side)) == merged_levels(*old(side)).push(level),
{
    side.push(level)
}

/// `ArrayVec::as_slice`, for a merged side: the levels held, in order; never
/// more of them than the capacity.
#[verifier::external_body]
pub(crate) fn merged_as_slice(side: &ArrayVec<Level, DEFAULT_DEPTH>) -> (levels: &[Level])
    ensures
        levels@ == merged_levels(*side),
        levels@.len() <= DEFAULT_DEPTH,
{
    side.as_slice()
}

} // verus!
