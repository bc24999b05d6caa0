//! What the merge of one side is: a mathematical description of the merged
//! side, against which the merge engine is proved.

use vstd::prelude::*;

use crate::market_data_source::{Exchange, MarketDatSourceLevel, OrderBook, DEFAULT_DEPTH};
use crate::orderbook::LevelView;
use crate::total_order::{lemma_order_key_injective, order_key};

verus! {

/// The two sides of a book.
#[derive(Debug, Copy, Clone, PartialEq, Eq, Structural)]
pub enum Side {
    Bid,
    Ask,
}

/// Whether level `a` comes strictly before level `b` on a side: among bids
/// the higher price, among asks the lower price, and at one price the higher
/// amount.
pub open spec fn precedes(side: Side, a: MarketDatSourceLevel, b: MarketDatSourceLevel) -> bool {
    let price_a = order_key(a.price);
    let price_b = order_key(b.price);
    let more = order_key(a.amount) > order_key(b.amount);
    match side {
        Side::Bid => price_a > price_b || (price_a == price_b && more),
        Side::Ask => price_a < price_b || (price_a == price_b && more),
    }
}

/// On either side the levels are in a strict total order: no level precedes
/// itself, of two different levels one precedes the other and not the other
/// way round, and a level precedes whatever a level that it precedes does.
pub proof fn lemma_precedes_is_strict_total_order(
    side: Side,
    a: MarketDatSourceLevel,
    b: MarketDatSourceLevel,
    c: MarketDatSourceLevel,
)
    ensures
        !precedes(side, a, a),
        precedes(side, a, b) ==> !precedes(side, b, a),
        a != b ==> precedes(side, a, b) || precedes(side, b, a),
        precedes(side, a, b) && precedes(side, b, c) ==> precedes(side, a, c),
{
    if a != b {
        if a.price != b.price {
            assert(order_key(a.price) != order_key(b.price)) by {
                if order_key(a.price) == order_key(b.price) {
                    lemma_order_key_injective(a.price, b.price);
                }
            }
        } else {
            assert(order_key(a.amount) != order_key(b.amount)) by {
                if order_key(a.amount) == order_key(b.amount) {
                    lemma_order_key_injective(a.amount, b.amount);
                }
            }
        }
    }
}

/// The levels of one side of an image.
pub open spec fn side_of(book: OrderBook, side: Side) -> Seq<MarketDatSourceLevel> {
    match side {
        Side::Bid => book.bid_levels(),
        Side::Ask => book.ask_levels(),
    }
}

/// One side of every image in a table, slot by slot.
pub open spec fn sides_of(images: Seq<OrderBook>, side: Side) -> Seq<Seq<MarketDatSourceLevel>> {
    Seq::new(images.len(), |v: int| side_of(images[v], side))
}

/// Whether slot `v` still has a level that the merge has not taken, when
/// `cursors[v]` of its levels have been taken.
pub open spec fn head_available(sides: Seq<Seq<MarketDatSourceLevel>>, cursors: Seq<int>, v: int) -> bool {
    &&& 0 <= v < sides.len()
    &&& v < cursors.len()
    &&& 0 <= cursors[v] < sides[v].len()
}

/// The next level of slot `v` that the merge has not taken.
pub open spec fn head(sides: Seq<Seq<MarketDatSourceLevel>>, cursors: Seq<int>, v: int) -> MarketDatSourceLevel {
    sides[v][cursors[v]]
}

/// Whether the head of slot `v` is taken before the head of slot `w`: it
/// precedes it, or the two levels are the same and `v` is the lower slot.
pub open spec fn beats(side: Side, sides: Seq<Seq<MarketDatSourceLevel>>, cursors: Seq<int>, v: int, w: int) -> bool {
    let a = head(sides, cursors, v);
    let b = head(sides, cursors, w);
    precedes(side, a, b) || (!precedes(side, b, a) && v < w)
}

/// The slot among the first `n` whose head is taken next, if any of them has
/// a head left.
pub open spec fn best_among(side: Side, sides: Seq<Seq<MarketDatSourceLevel>>, cursors: Seq<int>, n: int) -> Option<int>
    decreases n,
{
    if n <= 0 {
        None
    } else {
        let earlier = best_among(side, sides, cursors, n - 1);
        let v = n - 1;
        if !head_available(sides, cursors, v) {
            earlier
        } else if earlier is Some && !precedes(side, head(sides, cursors, v), head(sides, cursors, earlier->0)) {
            earlier
        } else {
            Some(v)
        }
    }
}

/// The picks of a merge that has room for `room` more levels: each pick is a
/// slot and the index of a level in that slot's side. The best head is taken
/// and its slot advanced, until the room is used or no head is left.
pub open spec fn merge_from(side: Side, sides: Seq<Seq<MarketDatSourceLevel>>, cursors: Seq<int>, room: nat) -> Seq<(int, int)>
    decreases room,
{
    if room == 0 {
        Seq::empty()
    } else {
        match best_among(side, sides, cursors, sides.len() as int) {
            None => Seq::empty(),
            Some(v) => seq![(v, cursors[v])] + merge_from(
                side,
                sides,
                cursors.update(v, cursors[v] + 1),
                (room - 1) as nat,
            ),
        }
    }
}

/// The cursors of a merge that has taken nothing yet.
pub open spec fn start_cursors(sides: Seq<Seq<MarketDatSourceLevel>>) -> Seq<int> {
    Seq::new(sides.len(), |v: int| 0int)
}

/// The picks of the merged side: the best `DEFAULT_DEPTH` levels over all
/// slots, or all of them where there are fewer.
pub open spec fn merged_picks(side: Side, sides: Seq<Seq<MarketDatSourceLevel>>) -> Seq<(int, int)> {
    merge_from(side, sides, start_cursors(sides), DEFAULT_DEPTH as nat)
}

/// The canonical name of the venue of a slot.
pub open spec fn venue_name(v: int) -> Seq<char> {
    match Exchange::of_index(v) {
        Some(exchange) => exchange.name(),
        None => Seq::empty(),
    }
}

/// The published form of a pick: the price and amount of the level picked,
/// and the name of its venue.
pub open spec fn publish(sides: Seq<Seq<MarketDatSourceLevel>>, pick: (int, int)) -> LevelView {
    LevelView {
        price: sides[pick.0][pick.1].price,
        amount: sides[pick.0][pick.1].amount,
        exchange: venue_name(pick.0),
    }
}

/// The published form of a sequence of picks.
pub open spec fn published(sides: Seq<Seq<MarketDatSourceLevel>>, picks: Seq<(int, int)>) -> Seq<LevelView> {
    Seq::new(picks.len(), |i: int| publish(sides, picks[i]))
}

/// The merged side of a table of images, as it is published.
pub open spec fn merged_side(images: Seq<OrderBook>, side: Side) -> Seq<LevelView> {
    published(sides_of(images, side), merged_picks(side, sides_of(images, side)))
}

/// Whether every slot past the last venue is empty on a side, so that every
/// level that can be picked has a venue.
pub open spec fn slots_have_venues(sides: Seq<Seq<MarketDatSourceLevel>>) -> bool {
    forall|v: int| Exchange::VARIANT_COUNT <= v < sides.len() ==> (#[trigger] sides[v]).len() == 0
}

/// The best slot has a head, and its head is taken before that of every
/// other slot that has one; where there is no best slot, no slot has a head.
pub proof fn lemma_best_among(side: Side, sides: Seq<Seq<MarketDatSourceLevel>>, cursors: Seq<int>, n: int)
    ensures
        match best_among(side, sides, cursors, n) {
            Some(u) => {
                &&& 0 <= u < n
                &&& head_available(sides, cursors, u)
                &&& forall|w: int|
                    0 <= w < n && w != u && head_available(sides, cursors, w) ==> beats(side, sides, cursors, u, w)
            },
            None => forall|w: int| 0 <= w < n ==> !head_available(sides, cursors, w),
        },
    decreases n,
{
    if n > 0 {
        lemma_best_among(side, sides, cursors, n - 1);
    }
}

/// A slot whose head is taken before that of every other slot is the best
/// slot.
pub proof fn lemma_best_among_unique(side: Side, sides: Seq<Seq<MarketDatSourceLevel>>, cursors: Seq<int>, n: int, v: int)
    requires
        0 <= v < n,
        head_available(sides, cursors, v),
        forall|w: int| 0 <= w < n && w != v && head_available(sides, cursors, w) ==> beats(side, sides, cursors, v, w),
    ensures
        best_among(side, sides, cursors, n) == Some(v),
{
    lemma_best_among(side, sides, cursors, n);
}

} // verus!
