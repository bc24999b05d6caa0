//! What holds of every merged side.

use vstd::prelude::*;

use crate::market_data_source::{Exchange, MarketDatSourceLevel, OrderBook, DEFAULT_DEPTH};
use crate::merge::{
    best_among, head_available, lemma_best_among, lemma_best_among_unique, merge_from, merged_picks, merged_side,
    precedes, publish, published, sides_of, slots_have_venues, start_cursors, Side,
};
use crate::orderbook::LevelView;
use crate::total_order::order_key;

verus! {

/// Whether every cursor lies within the side of its slot.
pub open spec fn cursors_within(sides: Seq<Seq<MarketDatSourceLevel>>, cursors: Seq<int>) -> bool {
    &&& cursors.len() == sides.len()
    &&& forall|v: int| 0 <= v < sides.len() ==> 0 <= #[trigger] cursors[v] <= sides[v].len()
}

/// Whether the levels of a side are in order: none comes strictly before an
/// earlier one.
pub open spec fn in_order(side: Side, levels: Seq<MarketDatSourceLevel>) -> bool {
    forall|i: int, j: int| 0 <= i < j < levels.len() ==> !precedes(side, levels[j], levels[i])
}

/// Whether the price of level `a` is strictly better than that of level `b`
/// on a side: higher among bids, lower among asks.
pub open spec fn price_precedes(side: Side, a: MarketDatSourceLevel, b: MarketDatSourceLevel) -> bool {
    match side {
        Side::Bid => order_key(a.price) > order_key(b.price),
        Side::Ask => order_key(a.price) < order_key(b.price),
    }
}

/// Whether the prices of a side are in order: none is strictly better than
/// an earlier one.
pub open spec fn prices_in_order(side: Side, levels: Seq<MarketDatSourceLevel>) -> bool {
    forall|i: int, j: int| 0 <= i < j < levels.len() ==> !price_precedes(side, levels[j], levels[i])
}

/// The price and amount of a published level.
pub open spec fn reported(level: LevelView) -> MarketDatSourceLevel {
    MarketDatSourceLevel { price: level.price, amount: level.amount }
}

/// The number of levels in the first `n` slots that the merge has not taken.
pub open spec fn remaining(sides: Seq<Seq<MarketDatSourceLevel>>, cursors: Seq<int>, n: int) -> int
    decreases n,
{
    if n <= 0 {
        0
    } else {
        remaining(sides, cursors, n - 1) + (sides[n - 1].len() - cursors[n - 1])
    }
}

/// The number of levels in the first `n` slots.
pub open spec fn levels_in(sides: Seq<Seq<MarketDatSourceLevel>>, n: int) -> int
    decreases n,
{
    if n <= 0 {
        0
    } else {
        levels_in(sides, n - 1) + sides[n - 1].len()
    }
}

/// The number of levels on a side over all slots.
pub open spec fn total_levels(sides: Seq<Seq<MarketDatSourceLevel>>) -> int {
    levels_in(sides, sides.len() as int)
}

/// The smaller of two numbers.
pub open spec fn smaller(a: int, b: int) -> int {
    if a <= b {
        a
    } else {
        b
    }
}

proof fn lemma_remaining_at_start(sides: Seq<Seq<MarketDatSourceLevel>>, n: int)
    requires
        0 <= n <= sides.len(),
    ensures
        remaining(sides, start_cursors(sides), n) == levels_in(sides, n),
    decreases n,
{
    if n > 0 {
        lemma_remaining_at_start(sides, n - 1);
    }
}

proof fn lemma_remaining_bounds(sides: Seq<Seq<MarketDatSourceLevel>>, cursors: Seq<int>, n: int)
    requires
        cursors_within(sides, cursors),
        0 <= n <= sides.len(),
    ensures
        remaining(sides, cursors, n) >= 0,
        remaining(sides, cursors, n) == 0 <==> forall|v: int| 0 <= v < n ==> !head_available(sides, cursors, v),
    decreases n,
{
    if n > 0 {
        lemma_remaining_bounds(sides, cursors, n - 1);
        assert(0 <= cursors[n - 1] <= sides[n - 1].len());
        if remaining(sides, cursors, n) == 0 {
            assert forall|v: int| 0 <= v < n implies !head_available(sides, cursors, v) by {
                if v < n - 1 {
                    assert(!head_available(sides, cursors, v));
                }
            }
        } else {
            if remaining(sides, cursors, n - 1) == 0 {
                assert(head_available(sides, cursors, n - 1));
            } else {
                let v = choose|v: int| 0 <= v < n - 1 && head_available(sides, cursors, v);
                assert(head_available(sides, cursors, v));
            }
        }
    }
}

proof fn lemma_remaining_advance(sides: Seq<Seq<MarketDatSourceLevel>>, cursors: Seq<int>, n: int, v: int)
    requires
        cursors_within(sides, cursors),
        0 <= n <= sides.len(),
        head_available(sides, cursors, v),
    ensures
        remaining(sides, cursors.update(v, cursors[v] + 1), n) == remaining(sides, cursors, n) - (if v < n {
            1int
        } else {
            0int
        }),
    decreases n,
{
    if n > 0 {
        lemma_remaining_advance(sides, cursors, n - 1, v);
    }
}

/// Every pick of a merge names a level that its slot holds and that the
/// merge had not taken before; a merge takes no more levels than it has room
/// for, and it takes the levels of one slot in the order of that slot.
pub proof fn lemma_merge_from_picks(side: Side, sides: Seq<Seq<MarketDatSourceLevel>>, cursors: Seq<int>, room: nat)
    requires
        cursors_within(sides, cursors),
    ensures
        merge_from(side, sides, cursors, room).len() <= room,
        forall|i: int|
            0 <= i < merge_from(side, sides, cursors, room).len() ==> {
                let pick = #[trigger] merge_from(side, sides, cursors, room)[i];
                &&& 0 <= pick.0 < sides.len()
                &&& cursors[pick.0] <= pick.1 < sides[pick.0].len()
            },
        forall|i: int, j: int|
            0 <= i < j < merge_from(side, sides, cursors, room).len() ==> {
                let a = #[trigger] merge_from(side, sides, cursors, room)[i];
                let b = #[trigger] merge_from(side, sides, cursors, room)[j];
                a.0 == b.0 ==> a.1 < b.1
            },
    decreases room,
{
    if room > 0 {
        lemma_best_among(side, sides, cursors, sides.len() as int);
        match best_among(side, sides, cursors, sides.len() as int) {
            None => {},
            Some(v) => {
                let moved = cursors.update(v, cursors[v] + 1);
                let rest = merge_from(side, sides, moved, (room - 1) as nat);
                let all = merge_from(side, sides, cursors, room);
                lemma_merge_from_picks(side, sides, moved, (room - 1) as nat);
                assert(all == seq![(v, cursors[v])] + rest);
                assert forall|i: int| 0 <= i < all.len() implies {
                    let pick = #[trigger] all[i];
                    &&& 0 <= pick.0 < sides.len()
                    &&& cursors[pick.0] <= pick.1 < sides[pick.0].len()
                } by {
                    if i > 0 {
                        assert(all[i] == rest[i - 1]);
                    }
                }
                assert forall|i: int, j: int| 0 <= i < j < all.len() implies {
                    let a = #[trigger] all[i];
                    let b = #[trigger] all[j];
                    a.0 == b.0 ==> a.1 < b.1
                } by {
                    assert(all[j] == rest[j - 1]);
                    if i > 0 {
                        assert(all[i] == rest[i - 1]);
                    }
                }
            },
        }
    }
}

/// A merge takes as many levels as it has room for, or all that are left
/// where those are fewer.
pub proof fn lemma_merge_from_len(side: Side, sides: Seq<Seq<MarketDatSourceLevel>>, cursors: Seq<int>, room: nat)
    requires
        cursors_within(sides, cursors),
    ensures
        merge_from(side, sides, cursors, room).len() == smaller(
            room as int,
            remaining(sides, cursors, sides.len() as int),
        ),
    decreases room,
{
    let n = sides.len() as int;
    lemma_remaining_bounds(sides, cursors, n);
    lemma_best_among(side, sides, cursors, n);
    if room > 0 {
        match best_among(side, sides, cursors, n) {
            None => {},
            Some(v) => {
                let moved = cursors.update(v, cursors[v] + 1);
                lemma_remaining_advance(sides, cursors, n, v);
                lemma_merge_from_len(side, sides, moved, (room - 1) as nat);
            },
        }
    }
}

/// Where every side is in order, the levels that a merge takes are in order.
pub proof fn lemma_merge_from_in_order(side: Side, sides: Seq<Seq<MarketDatSourceLevel>>, cursors: Seq<int>, room: nat)
    requires
        cursors_within(sides, cursors),
        forall|v: int| 0 <= v < sides.len() ==> in_order(side, #[trigger] sides[v]),
    ensures
        forall|i: int, j: int|
            0 <= i < j < merge_from(side, sides, cursors, room).len() ==> {
                let a = #[trigger] merge_from(side, sides, cursors, room)[i];
                let b = #[trigger] merge_from(side, sides, cursors, room)[j];
                !precedes(side, sides[b.0][b.1], sides[a.0][a.1])
            },
    decreases room,
{
    if room > 0 {
        let n = sides.len() as int;
        lemma_best_among(side, sides, cursors, n);
        match best_among(side, sides, cursors, n) {
            None => {},
            Some(v) => {
                let moved = cursors.update(v, cursors[v] + 1);
                let rest = merge_from(side, sides, moved, (room - 1) as nat);
                let all = merge_from(side, sides, cursors, room);
                lemma_merge_from_in_order(side, sides, moved, (room - 1) as nat);
                lemma_merge_from_picks(side, sides, moved, (room - 1) as nat);
                assert(all == seq![(v, cursors[v])] + rest);
                assert forall|i: int, j: int| 0 <= i < j < all.len() implies {
                    let a = #[trigger] all[i];
                    let b = #[trigger] all[j];
                    !precedes(side, sides[b.0][b.1], sides[a.0][a.1])
                } by {
                    assert(all[j] == rest[j - 1]);
                    if i > 0 {
                        assert(all[i] == rest[i - 1]);
                    } else {
                        let b = rest[j - 1];
                        let w = b.0;
                        assert(in_order(side, sides[w]));
                        assert(head_available(sides, cursors, w));
                        if b.1 > cursors[w] {
                            assert(!precedes(side, sides[w][b.1], sides[w][cursors[w]]));
                        }
                    }
                }
            },
        }
    }
}

/// Where the prices of every side are in order, the prices of the levels
/// that a merge takes are in order.
pub proof fn lemma_merge_from_prices_in_order(
    side: Side,
    sides: Seq<Seq<MarketDatSourceLevel>>,
    cursors: Seq<int>,
    room: nat,
)
    requires
        cursors_within(sides, cursors),
        forall|v: int| 0 <= v < sides.len() ==> prices_in_order(side, #[trigger] sides[v]),
    ensures
        forall|i: int, j: int|
            0 <= i < j < merge_from(side, sides, cursors, room).len() ==> {
                let a = #[trigger] merge_from(side, sides, cursors, room)[i];
                let b = #[trigger] merge_from(side, sides, cursors, room)[j];
                !price_precedes(side, sides[b.0][b.1], sides[a.0][a.1])
            },
    decreases room,
{
    if room > 0 {
        let n = sides.len() as int;
        lemma_best_among(side, sides, cursors, n);
        match best_among(side, sides, cursors, n) {
            None => {},
            Some(v) => {
                let moved = cursors.update(v, cursors[v] + 1);
                let rest = merge_from(side, sides, moved, (room - 1) as nat);
                let all = merge_from(side, sides, cursors, room);
                lemma_merge_from_prices_in_order(side, sides, moved, (room - 1) as nat);
                lemma_merge_from_picks(side, sides, moved, (room - 1) as nat);
                assert(all == seq![(v, cursors[v])] + rest);
                assert forall|i: int, j: int| 0 <= i < j < all.len() implies {
                    let a = #[trigger] all[i];
                    let b = #[trigger] all[j];
                    !price_precedes(side, sides[b.0][b.1], sides[a.0][a.1])
                } by {
                    assert(all[j] == rest[j - 1]);
                    if i > 0 {
                        assert(all[i] == rest[i - 1]);
                    } else {
                        let b = rest[j - 1];
                        let w = b.0;
                        assert(prices_in_order(side, sides[w]));
                        assert(head_available(sides, cursors, w));
                        if b.1 > cursors[w] {
                            assert(!price_precedes(side, sides[w][b.1], sides[w][cursors[w]]));
                        }
                    }
                }
            },
        }
    }
}

/// Where every side is in order, no level that a merge leaves behind comes
/// strictly before one that it takes.
pub proof fn lemma_merge_from_takes_the_best(
    side: Side,
    sides: Seq<Seq<MarketDatSourceLevel>>,
    cursors: Seq<int>,
    room: nat,
)
    requires
        cursors_within(sides, cursors),
        forall|v: int| 0 <= v < sides.len() ==> in_order(side, #[trigger] sides[v]),
    ensures
        forall|i: int, w: int, k: int|
            0 <= i < merge_from(side, sides, cursors, room).len() && 0 <= w < sides.len() && cursors[w] <= k
                < sides[w].len() && !merge_from(side, sides, cursors, room).contains((w, k)) ==> !precedes(
                side,
                #[trigger] sides[w][k],
                sides[(#[trigger] merge_from(side, sides, cursors, room)[i]).0][merge_from(
                    side,
                    sides,
                    cursors,
                    room,
                )[i].1],
            ),
    decreases room,
{
    if room > 0 {
        let n = sides.len() as int;
        lemma_best_among(side, sides, cursors, n);
        match best_among(side, sides, cursors, n) {
            None => {},
            Some(v) => {
                let moved = cursors.update(v, cursors[v] + 1);
                let rest = merge_from(side, sides, moved, (room - 1) as nat);
                let all = merge_from(side, sides, cursors, room);
                lemma_merge_from_takes_the_best(side, sides, moved, (room - 1) as nat);
                assert(all == seq![(v, cursors[v])] + rest);
                assert forall|i: int, w: int, k: int|
                    0 <= i < all.len() && 0 <= w < sides.len() && cursors[w] <= k < sides[w].len()
                        && !all.contains((w, k)) implies !precedes(
                    side,
                    #[trigger] sides[w][k],
                    sides[(#[trigger] all[i]).0][all[i].1],
                ) by {
                    assert(all[0] == (v, cursors[v]));
                    if i == 0 {
                        assert(in_order(side, sides[w]));
                        assert(head_available(sides, cursors, w));
                        if k > cursors[w] {
                            assert(!precedes(side, sides[w][k], sides[w][cursors[w]]));
                        }
                    } else {
                        assert(all[i] == rest[i - 1]);
                        assert(moved[w] <= k);
                        if rest.contains((w, k)) {
                            let j = choose|j: int| 0 <= j < rest.len() && rest[j] == (w, k);
                            assert(all[j + 1] == (w, k));
                        }
                    }
                }
            },
        }
    }
}

/// A merge takes the levels of a slot one after the other and skips none:
/// with a level of a slot it has taken every earlier level of that slot that
/// it had not taken before.
pub proof fn lemma_merge_from_skips_none(
    side: Side,
    sides: Seq<Seq<MarketDatSourceLevel>>,
    cursors: Seq<int>,
    room: nat,
)
    requires
        cursors_within(sides, cursors),
    ensures
        forall|i: int, k: int|
            0 <= i < merge_from(side, sides, cursors, room).len() && cursors[merge_from(
                side,
                sides,
                cursors,
                room,
            )[i].0] <= k < merge_from(side, sides, cursors, room)[i].1 ==> #[trigger] merge_from(
                side,
                sides,
                cursors,
                room,
            ).contains((merge_from(side, sides, cursors, room)[i].0, k)),
    decreases room,
{
    if room > 0 {
        let n = sides.len() as int;
        lemma_best_among(side, sides, cursors, n);
        match best_among(side, sides, cursors, n) {
            None => {},
            Some(v) => {
                let moved = cursors.update(v, cursors[v] + 1);
                let rest = merge_from(side, sides, moved, (room - 1) as nat);
                let all = merge_from(side, sides, cursors, room);
                lemma_merge_from_skips_none(side, sides, moved, (room - 1) as nat);
                lemma_merge_from_picks(side, sides, moved, (room - 1) as nat);
                assert(all == seq![(v, cursors[v])] + rest);
                assert forall|i: int, k: int| 0 <= i < all.len() && cursors[all[i].0] <= k < all[i].1 implies #[trigger] all.contains(
                    (all[i].0, k),
                ) by {
                    assert(all[0] == (v, cursors[v]));
                    if i > 0 {
                        assert(all[i] == rest[i - 1]);
                        let w = rest[i - 1].0;
                        if w == v && k == cursors[v] {
                            assert(all[0] == (w, k));
                        } else {
                            assert(moved[w] <= k);
                            assert(rest.contains((rest[i - 1].0, k)));
                            let j = choose|j: int| 0 <= j < rest.len() && rest[j] == (w, k);
                            assert(all[j + 1] == (w, k));
                        }
                    }
                }
            },
        }
    }
}

/// Where slot `v` alone has levels left, a merge takes the levels of that
/// slot one after the other.
proof fn lemma_merge_from_single(
    side: Side,
    sides: Seq<Seq<MarketDatSourceLevel>>,
    cursors: Seq<int>,
    room: nat,
    v: int,
)
    requires
        cursors_within(sides, cursors),
        0 <= v < sides.len(),
        forall|w: int| 0 <= w < sides.len() && w != v ==> !head_available(sides, cursors, w),
    ensures
        merge_from(side, sides, cursors, room) == Seq::new(
            smaller(room as int, sides[v].len() - cursors[v]) as nat,
            |i: int| (v, cursors[v] + i),
        ),
    decreases room,
{
    let n = sides.len() as int;
    let taken = Seq::new(smaller(room as int, sides[v].len() - cursors[v]) as nat, |i: int| (v, cursors[v] + i));
    if room > 0 {
        lemma_best_among(side, sides, cursors, n);
        if head_available(sides, cursors, v) {
            lemma_best_among_unique(side, sides, cursors, n, v);
            let moved = cursors.update(v, cursors[v] + 1);
            assert forall|w: int| 0 <= w < sides.len() && w != v implies !head_available(sides, moved, w) by {
                assert(!head_available(sides, cursors, w));
            }
            lemma_merge_from_single(side, sides, moved, (room - 1) as nat, v);
            assert(merge_from(side, sides, cursors, room) =~= taken);
        } else {
            assert(best_among(side, sides, cursors, n) is None) by {
                if best_among(side, sides, cursors, n) is Some {
                    let u = best_among(side, sides, cursors, n)->0;
                    assert(!head_available(sides, cursors, u));
                }
            }
            assert(merge_from(side, sides, cursors, room) =~= taken);
        }
    } else {
        assert(merge_from(side, sides, cursors, room) =~= taken);
    }
}

/// A merged side never holds more than `DEFAULT_DEPTH` levels.
pub proof fn lemma_merged_side_within_depth(images: Seq<OrderBook>, side: Side)
    ensures
        merged_side(images, side).len() <= DEFAULT_DEPTH,
{
    let sides = sides_of(images, side);
    lemma_merge_from_picks(side, sides, start_cursors(sides), DEFAULT_DEPTH as nat);
}

/// A merged side holds `DEFAULT_DEPTH` levels, or every level of every
/// venue where those are fewer. So where the venues together report at
/// least `DEFAULT_DEPTH` levels on a side, the merged side is full.
pub proof fn lemma_merged_side_len(images: Seq<OrderBook>, side: Side)
    ensures
        merged_side(images, side).len() == smaller(DEFAULT_DEPTH as int, total_levels(sides_of(images, side))),
        total_levels(sides_of(images, side)) >= DEFAULT_DEPTH ==> merged_side(images, side).len() == DEFAULT_DEPTH,
{
    let sides = sides_of(images, side);
    lemma_merge_from_len(side, sides, start_cursors(sides), DEFAULT_DEPTH as nat);
    lemma_remaining_at_start(sides, sides.len() as int);
}

/// Where every venue reports its side in order, the merged side is in order:
/// bids by falling price, asks by rising price, and levels of one price by
/// falling amount.
pub proof fn lemma_merged_side_in_order(images: Seq<OrderBook>, side: Side)
    requires
        forall|v: int| 0 <= v < images.len() ==> in_order(side, #[trigger] sides_of(images, side)[v]),
    ensures
        forall|i: int, j: int|
            0 <= i < j < merged_side(images, side).len() ==> !precedes(
                side,
                reported(#[trigger] merged_side(images, side)[j]),
                reported(#[trigger] merged_side(images, side)[i]),
            ),
{
    let sides = sides_of(images, side);
    let picks = merged_picks(side, sides);
    lemma_merge_from_in_order(side, sides, start_cursors(sides), DEFAULT_DEPTH as nat);
    assert forall|i: int, j: int| 0 <= i < j < merged_side(images, side).len() implies !precedes(
        side,
        reported(#[trigger] merged_side(images, side)[j]),
        reported(#[trigger] merged_side(images, side)[i]),
    ) by {
        let a = picks[i];
        let b = picks[j];
        assert(!precedes(side, sides[b.0][b.1], sides[a.0][a.1]));
        assert(merged_side(images, side)[i] == publish(sides, a));
        assert(merged_side(images, side)[j] == publish(sides, b));
    }
}

/// Whether a string is the canonical name of a venue.
pub open spec fn is_venue_name(name: Seq<char>) -> bool {
    exists|exchange: Exchange| name == #[trigger] exchange.name()
}

/// Where every venue reports its side by price, best first, the prices of
/// the merged side are in that order too: the prices of the bids never
/// rise, and those of the asks never fall.
pub proof fn lemma_merged_side_prices_in_order(images: Seq<OrderBook>, side: Side)
    requires
        forall|v: int| 0 <= v < images.len() ==> prices_in_order(side, #[trigger] sides_of(images, side)[v]),
    ensures
        forall|i: int, j: int|
            0 <= i < j < merged_side(images, side).len() ==> !price_precedes(
                side,
                reported(#[trigger] merged_side(images, side)[j]),
                reported(#[trigger] merged_side(images, side)[i]),
            ),
{
    let sides = sides_of(images, side);
    let picks = merged_picks(side, sides);
    lemma_merge_from_prices_in_order(side, sides, start_cursors(sides), DEFAULT_DEPTH as nat);
    assert forall|i: int, j: int| 0 <= i < j < merged_side(images, side).len() implies !price_precedes(
        side,
        reported(#[trigger] merged_side(images, side)[j]),
        reported(#[trigger] merged_side(images, side)[i]),
    ) by {
        let a = picks[i];
        let b = picks[j];
        assert(!price_precedes(side, sides[b.0][b.1], sides[a.0][a.1]));
        assert(merged_side(images, side)[i] == publish(sides, a));
        assert(merged_side(images, side)[j] == publish(sides, b));
    }
}

/// Where every venue reports its side in order, the merged side holds the
/// best levels of all venues: no level that a venue reports and that the
/// merge has not taken comes strictly before one that it has taken.
pub proof fn lemma_merged_side_is_the_best(images: Seq<OrderBook>, side: Side)
    requires
        forall|v: int| 0 <= v < images.len() ==> in_order(side, #[trigger] sides_of(images, side)[v]),
    ensures
        forall|i: int, w: int, k: int|
            0 <= i < merged_side(images, side).len() && 0 <= w < images.len() && 0 <= k < sides_of(
                images,
                side,
            )[w].len() && !merged_picks(side, sides_of(images, side)).contains((w, k)) ==> !precedes(
                side,
                #[trigger] sides_of(images, side)[w][k],
                reported(#[trigger] merged_side(images, side)[i]),
            ),
{
    let sides = sides_of(images, side);
    let picks = merged_picks(side, sides);
    lemma_merge_from_takes_the_best(side, sides, start_cursors(sides), DEFAULT_DEPTH as nat);
    assert forall|i: int, w: int, k: int|
        0 <= i < merged_side(images, side).len() && 0 <= w < images.len() && 0 <= k < sides[w].len()
            && !picks.contains((w, k)) implies !precedes(
        side,
        #[trigger] sides[w][k],
        reported(#[trigger] merged_side(images, side)[i]),
    ) by {
        assert(merged_side(images, side)[i] == publish(sides, picks[i]));
        assert(!precedes(side, sides[w][k], sides[picks[i].0][picks[i].1]));
    }
}

/// The levels that a merged side takes from a venue are the first levels of
/// that venue, none skipped: with a level it holds every earlier level of
/// the same venue.
pub proof fn lemma_merged_picks_skip_none(images: Seq<OrderBook>, side: Side)
    ensures
        forall|i: int, k: int|
            0 <= i < merged_picks(side, sides_of(images, side)).len() && 0 <= k < merged_picks(
                side,
                sides_of(images, side),
            )[i].1 ==> #[trigger] merged_picks(side, sides_of(images, side)).contains(
                (merged_picks(side, sides_of(images, side))[i].0, k),
            ),
{
    let sides = sides_of(images, side);
    let picks = merged_picks(side, sides);
    lemma_merge_from_skips_none(side, sides, start_cursors(sides), DEFAULT_DEPTH as nat);
    lemma_merge_from_picks(side, sides, start_cursors(sides), DEFAULT_DEPTH as nat);
    assert forall|i: int, k: int| 0 <= i < picks.len() && 0 <= k < picks[i].1 implies #[trigger] picks.contains(
        (picks[i].0, k),
    ) by {
        assert(start_cursors(sides)[picks[i].0] == 0);
    }
}

/// Every level of a merged side bears the canonical name of a venue, where
/// no slot past the last venue holds a level.
pub proof fn lemma_merged_side_names_venues(images: Seq<OrderBook>, side: Side)
    requires
        slots_have_venues(sides_of(images, side)),
    ensures
        forall|i: int|
            0 <= i < merged_side(images, side).len() ==> is_venue_name(
                (#[trigger] merged_side(images, side)[i]).exchange,
            ),
{
    let sides = sides_of(images, side);
    let picks = merged_picks(side, sides);
    lemma_merge_from_picks(side, sides, start_cursors(sides), DEFAULT_DEPTH as nat);
    assert forall|i: int| 0 <= i < merged_side(images, side).len() implies is_venue_name(
        (#[trigger] merged_side(images, side)[i]).exchange,
    ) by {
        let pick = picks[i];
        assert(sides[pick.0].len() > 0);
        assert(pick.0 < Exchange::VARIANT_COUNT);
        let exchange = Exchange::of_index(pick.0)->0;
        assert(merged_side(images, side)[i] == publish(sides, pick));
        assert(merged_side(images, side)[i].exchange == exchange.name());
    }
}

/// No level of an image is taken twice into a merged side, and every level
/// taken is one that its venue reported: the picks are distinct and each
/// lies within the side of its slot.
pub proof fn lemma_merged_picks_distinct(images: Seq<OrderBook>, side: Side)
    ensures
        forall|i: int|
            0 <= i < merged_picks(side, sides_of(images, side)).len() ==> {
                let pick = #[trigger] merged_picks(side, sides_of(images, side))[i];
                &&& 0 <= pick.0 < images.len()
                &&& 0 <= pick.1 < sides_of(images, side)[pick.0].len()
            },
        forall|i: int, j: int|
            0 <= i < j < merged_picks(side, sides_of(images, side)).len() ==> #[trigger] merged_picks(
                side,
                sides_of(images, side),
            )[i] != #[trigger] merged_picks(side, sides_of(images, side))[j],
{
    let sides = sides_of(images, side);
    lemma_merge_from_picks(side, sides, start_cursors(sides), DEFAULT_DEPTH as nat);
}

/// Where no venue reports a level on a side, the merged side is empty.
pub proof fn lemma_merged_side_of_empty_sides(images: Seq<OrderBook>, side: Side)
    requires
        forall|v: int| 0 <= v < images.len() ==> (#[trigger] sides_of(images, side)[v]).len() == 0,
    ensures
        merged_side(images, side).len() == 0,
{
    let sides = sides_of(images, side);
    lemma_best_among(side, sides, start_cursors(sides), sides.len() as int);
    if best_among(side, sides, start_cursors(sides), sides.len() as int) is Some {
        let u = best_among(side, sides, start_cursors(sides), sides.len() as int)->0;
        assert(sides[u].len() == 0);
    }
}

/// Where one venue alone reports levels on a side, the merged side is the
/// side of that venue, level by level, up to `DEFAULT_DEPTH` levels.
pub proof fn lemma_merged_side_of_single_venue(images: Seq<OrderBook>, side: Side, v: int)
    requires
        0 <= v < images.len(),
        forall|w: int| 0 <= w < images.len() && w != v ==> (#[trigger] sides_of(images, side)[w]).len() == 0,
    ensures
        merged_side(images, side) == Seq::new(
            smaller(DEFAULT_DEPTH as int, sides_of(images, side)[v].len() as int) as nat,
            |i: int| publish(sides_of(images, side), (v, i)),
        ),
{
    let sides = sides_of(images, side);
    assert forall|w: int| 0 <= w < sides.len() && w != v implies !head_available(sides, start_cursors(sides), w) by {
        assert(sides[w].len() == 0);
    }
    lemma_merge_from_single(side, sides, start_cursors(sides), DEFAULT_DEPTH as nat, v);
    assert(merged_side(images, side) =~= Seq::new(
        smaller(DEFAULT_DEPTH as int, sides[v].len() as int) as nat,
        |i: int| publish(sides, (v, i)),
    ));
}

} // verus!
