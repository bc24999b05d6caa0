//! The canonical schema shared by the feeds and the merge engine.

use arrayvec::ArrayVec;
use tokio::sync::mpsc::Sender;
use vstd::prelude::*;
use vstd::string::*;

use crate::bounded::{side_clone, side_is_full, side_levels, side_new, side_push};
use crate::orderbook::{Level, LevelView};
use crate::total_order::{is_nan, is_nan_bits};

verus! {

/// The number of price levels kept per side.
pub const DEFAULT_DEPTH: usize = 10;

/// The venues that feed the book, in the order of their slots in the image
/// table.
#[derive(Debug, Copy, Clone, PartialEq, Eq, Structural)]
pub enum Exchange {
    Binance,
    Bitstamp,
}

impl Exchange {
    /// The number of venues.
    pub const VARIANT_COUNT: usize = 2;

    /// The slot of the venue in the image table.
    pub open spec fn index(self) -> int {
        match self {
            Exchange::Binance => 0,
            Exchange::Bitstamp => 1,
        }
    }

    /// The venue of a slot; slots past the last venue stand for none.
    pub open spec fn of_index(index: int) -> Option<Exchange> {
        if index == 0 {
            Some(Exchange::Binance)
        } else if index == 1 {
            Some(Exchange::Bitstamp)
        } else {
            None
        }
    }

    /// The canonical lower-case name of the venue.
    pub open spec fn name(self) -> Seq<char> {
        match self {
            Exchange::Binance => "binance"@,
            Exchange::Bitstamp => "bitstamp"@,
        }
    }

    /// The slot of the venue in the image table.
    pub fn ordinal(self) -> (index: usize)
        ensures
            index == self.index(),
            index < Exchange::VARIANT_COUNT,
    {
        match self {
            Exchange::Binance => 0,
            Exchange::Bitstamp => 1,
        }
    }

    /// The venue whose slot is `index`, if there is one.
    pub fn from_usize(index: usize) -> (exchange: Option<Exchange>)
        ensures
            exchange == Exchange::of_index(index as int),
            exchange is Some <==> index < Exchange::VARIANT_COUNT,
    {
        if index == 0 {
            Some(Exchange::Binance)
        } else if index == 1 {
            Some(Exchange::Bitstamp)
        } else {
            None
        }
    }

    /// The canonical name of the venue as an owned string.
    pub fn to_string(&self) -> (name: String)
        ensures
            name@ == self.name(),
    {
        match self {
            Exchange::Binance => String::from_str("binance"),
            Exchange::Bitstamp => String::from_str("bitstamp"),
        }
    }
}

/// One price level as a feed reports it. Both fields hold the bit pattern of
/// an IEEE-754 binary64 number.
#[derive(Debug, Copy, Clone, PartialEq, Eq, Structural)]
pub struct MarketDatSourceLevel {
    pub price: u64,
    pub amount: u64,
}

impl MarketDatSourceLevel {
    /// A level of a price and an amount, given as bit patterns. A NaN on
    /// either place makes no level.
    pub fn from_bits(price: u64, amount: u64) -> (level: Option<MarketDatSourceLevel>)
        ensures
            level == if is_nan(price) || is_nan(amount) {
                None
            } else {
                Some(MarketDatSourceLevel { price, amount })
            },
    {
        if is_nan_bits(price) || is_nan_bits(amount) {
            None
        } else {
            Some(MarketDatSourceLevel { price, amount })
        }
    }

    /// The level as it is published for a venue of the given name.
    pub fn to_orderbook_level(&self, exchange: String) -> (level: Level)
        ensures
            level@ == (LevelView { price: self.price, amount: self.amount, exchange: exchange@ }),
    {
        Level { amount: self.amount, price: self.price, exchange }
    }
}

/// The levels that are kept of a side as a feed reports it: the first
/// `DEFAULT_DEPTH`, or all of them where there are fewer.
pub open spec fn kept_levels(levels: Seq<MarketDatSourceLevel>) -> Seq<MarketDatSourceLevel> {
    if levels.len() <= DEFAULT_DEPTH {
        levels
    } else {
        levels.take(DEFAULT_DEPTH as int)
    }
}

/// Tells whether a side takes another level: whether it holds fewer than
/// `DEFAULT_DEPTH`.
pub fn takes_more(side: &ArrayVec<MarketDatSourceLevel, DEFAULT_DEPTH>) -> (more: bool)
    ensures
        more == (side_levels(*side).len() < DEFAULT_DEPTH),
        more == (side_levels(*side).len() != DEFAULT_DEPTH),
{
    !side_is_full(side)
}

/// Adds a level behind those of a side, unless the side is full; tells
/// whether the level was kept.
pub fn push_within_depth(side: &mut ArrayVec<MarketDatSourceLevel, DEFAULT_DEPTH>, level: MarketDatSourceLevel) -> (kept: bool)
    ensures
        kept == (side_levels(*old(side)).len() != DEFAULT_DEPTH),
        kept ==> side_levels(*final(side)) == side_levels(*old(side)).push(level),
        !kept ==> side_levels(*final(side)) == side_levels(*old(side)),
{
    if takes_more(side) {
        side_push(side, level);
        true
    } else {
        false
    }
}

/// Fills a side from the levels that a feed reports, in their order: the
/// first `DEFAULT_DEPTH` are kept, and what comes after them is dropped
/// without complaint.
pub fn deserialie_vector(levels: &[MarketDatSourceLevel]) -> (elems: ArrayVec<MarketDatSourceLevel, DEFAULT_DEPTH>)
    ensures
        side_levels(elems) == kept_levels(levels@),
{
    let mut elems = side_new();
    let mut taken: usize = 0;
    while taken < levels.len() && takes_more(&elems)
        invariant
            taken <= levels.len(),
            taken <= DEFAULT_DEPTH,
            side_levels(elems) == levels@.take(taken as int),
        decreases levels.len() - taken,
    {
        side_push(&mut elems, levels[taken]);
        taken += 1;
        assert(levels@.take(taken as int) =~= levels@.take(taken - 1).push(levels@[taken - 1]));
    }
    assert(side_levels(elems) =~= kept_levels(levels@));
    elems
}

/// Levels past the first `DEFAULT_DEPTH` make no difference to what is kept
/// of a side: a report with more levels fills the side as the report cut
/// down to its first `DEFAULT_DEPTH` levels does.
pub proof fn lemma_overflow_is_dropped(levels: Seq<MarketDatSourceLevel>)
    requires
        levels.len() > DEFAULT_DEPTH,
    ensures
        kept_levels(levels) == kept_levels(levels.take(DEFAULT_DEPTH as int)),
        kept_levels(levels) == levels.take(DEFAULT_DEPTH as int),
{
}

/// The image of one venue: its bids, best first, and its asks, best first,
/// each of at most `DEFAULT_DEPTH` levels.
#[derive(Debug, PartialEq)]
pub struct OrderBook {
    pub bids: ArrayVec<MarketDatSourceLevel, DEFAULT_DEPTH>,
    pub asks: ArrayVec<MarketDatSourceLevel, DEFAULT_DEPTH>,
}

impl OrderBook {
    /// The bids of the image, best first.
    pub open spec fn bid_levels(self) -> Seq<MarketDatSourceLevel> {
        side_levels(self.bids)
    }

    /// The asks of the image, best first.
    pub open spec fn ask_levels(self) -> Seq<MarketDatSourceLevel> {
        side_levels(self.asks)
    }

    /// An image with no level on either side.
    pub fn new() -> (book: OrderBook)
        ensures
            book.bid_levels() == Seq::<MarketDatSourceLevel>::empty(),
            book.ask_levels() == Seq::<MarketDatSourceLevel>::empty(),
    {
        OrderBook { bids: side_new(), asks: side_new() }
    }
}

impl OrderBook {
    /// Adds a bid behind the bids of the image, unless there are
    /// `DEFAULT_DEPTH` of them already.
    pub fn add_bid(&mut self, level: MarketDatSourceLevel)
        ensures
            final(self).bid_levels() == if old(self).bid_levels().len() != DEFAULT_DEPTH {
                old(self).bid_levels().push(level)
            } else {
                old(self).bid_levels()
            },
            final(self).ask_levels() == old(self).ask_levels(),
    {
        push_within_depth(&mut self.bids, level);
    }

    /// Adds an ask behind the asks of the image, unless there are
    /// `DEFAULT_DEPTH` of them already.
    pub fn add_ask(&mut self, level: MarketDatSourceLevel)
        ensures
            final(self).ask_levels() == if old(self).ask_levels().len() != DEFAULT_DEPTH {
                old(self).ask_levels().push(level)
            } else {
                old(self).ask_levels()
            },
            final(self).bid_levels() == old(self).bid_levels(),
    {
        push_within_depth(&mut self.asks, level);
    }
}

impl Clone for OrderBook {
    fn clone(&self) -> (book: OrderBook)
        ensures
            book.bid_levels() == self.bid_levels(),
            book.ask_levels() == self.ask_levels(),
    {
        OrderBook { bids: side_clone(&self.bids), asks: side_clone(&self.asks) }
    }
}

/// The two sides that a feed reports in one message.
#[derive(Debug, PartialEq)]
pub struct MarketDataSourceData {
    pub bids: ArrayVec<MarketDatSourceLevel, DEFAULT_DEPTH>,
    pub asks: ArrayVec<MarketDatSourceLevel, DEFAULT_DEPTH>,
}

/// A snapshot in flight: the venue it came from and the image it carries.
#[derive(Debug, PartialEq)]
pub struct OrderBookSnap {
    pub exchange: Exchange,
    pub order_book: OrderBook,
}

impl OrderBookSnap {
    /// A snapshot of a venue with no level on either side.
    pub fn new(exchange: Exchange) -> (snap: OrderBookSnap)
        ensures
            snap.exchange == exchange,
            snap.order_book.bid_levels() == Seq::<MarketDatSourceLevel>::empty(),
            snap.order_book.ask_levels() == Seq::<MarketDatSourceLevel>::empty(),
    {
        OrderBookSnap { exchange, order_book: OrderBook::new() }
    }

    /// The venue that the snapshot came from.
    pub fn get_exchange(&self) -> (exchange: &Exchange)
        ensures
            *exchange == self.exchange,
    {
        &self.exchange
    }
}

/// What a feed adapter is set up with: the address of the venue, the
/// currency pair it follows, the queue its snapshots go to, and its name.
#[derive(Clone)]
pub struct MarketDataSourceInfo {
    pub address: String,
    pub currency: String,
    pub sender: Sender<OrderBookSnap>,
    pub name: String,
}

} // verus!
