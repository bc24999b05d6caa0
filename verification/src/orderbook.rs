//! The published form of the merged book.

use vstd::prelude::*;

verus! {

/// One level of the merged book: a price and an amount, both as IEEE-754
/// binary64 bit patterns, and the canonical name of the venue it came from.
#[derive(Debug, Clone, PartialEq)]
pub struct Level {
    pub price: u64,
    pub amount: u64,
    pub exchange: String,
}

/// What a published level says.
pub struct LevelView {
    pub price: u64,
    pub amount: u64,
    pub exchange: Seq<char>,
}

impl View for Level {
    type V = LevelView;

    open spec fn view(&self) -> LevelView {
        LevelView { price: self.price, amount: self.amount, exchange: self.exchange@ }
    }
}

/// What each of a sequence of published levels says.
pub open spec fn views_of(levels: Seq<Level>) -> Seq<LevelView> {
    Seq::new(levels.len(), |i: int| levels[i]@)
}

impl DeepView for Level {
    type V = LevelView;

    open spec fn deep_view(&self) -> LevelView {
        self@
    }
}

/// The merged top of book: bids best first, asks best first. The spread is
/// the best ask less the best bid, as numbers; `top_of_book` gives the two,
/// and both are there in every summary that the aggregator hands out.
#[derive(Debug, Clone, PartialEq)]
pub struct Summary {
    pub bids: Vec<Level>,
    pub asks: Vec<Level>,
}

impl Summary {
    /// The two prices whose difference is the spread: the best ask and the
    /// best bid, in this order, as bit patterns; none where a side is empty.
    pub fn top_of_book(&self) -> (prices: Option<(u64, u64)>)
        ensures
            prices == if self.asks.len() > 0 && self.bids.len() > 0 {
                Some((self.asks[0].price, self.bids[0].price))
            } else {
                None
            },
    {
        if self.asks.len() > 0 && self.bids.len() > 0 {
            Some((self.asks[0].price, self.bids[0].price))
        } else {
            None
        }
    }
}

/// What a summary says.
pub struct SummaryView {
    pub bids: Seq<LevelView>,
    pub asks: Seq<LevelView>,
}

impl View for Summary {
    type V = SummaryView;

    open spec fn view(&self) -> SummaryView {
        SummaryView { bids: self.bids.deep_view(), asks: self.asks.deep_view() }
    }
}

} // verus!
