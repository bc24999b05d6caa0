//! The merge engine: the table of images, one per venue, and the merge of
//! each side into the published top of book.

use arrayvec::ArrayVec;
use vstd::prelude::*;
use vstd::string::*;

use crate::bounded::{merged_as_slice, merged_is_full, merged_levels, merged_new, merged_push, side_as_slice};
use crate::market_data_source::{Exchange, MarketDatSourceLevel, OrderBook, OrderBookSnap, DEFAULT_DEPTH};
use crate::merge::{
    beats, best_among, head_available, lemma_best_among, lemma_best_among_unique, merge_from, merged_picks,
    merged_side, precedes, publish, published, side_of, sides_of, slots_have_venues, start_cursors, Side,
};
use crate::merge_laws::lemma_merged_side_of_empty_sides;
use crate::orderbook::{views_of, Level, Summary, SummaryView};
use crate::total_order::total_order_key;

verus! {

/// Why a merge gave no result.
#[derive(Debug, Copy, Clone, PartialEq, Eq, Structural)]
pub enum MergeError {
    /// A slot past the last venue holds a level, and no venue can be named
    /// for it.
    InvalidExchangeIndex,
    /// A merged side is empty, so the book has no spread.
    EmptySide,
}

impl MergeError {
    /// What went wrong, in words.
    pub fn message(&self) -> (text: String)
        ensures
            text@ == match *self {
                MergeError::InvalidExchangeIndex => "Cannot get exchange enum from index"@,
                MergeError::EmptySide => "Cannot give a spread for an empty side"@,
            },
    {
        match self {
            MergeError::InvalidExchangeIndex => String::from_str("Cannot get exchange enum from index"),
            MergeError::EmptySide => String::from_str("Cannot give a spread for an empty side"),
        }
    }
}

/// A head waiting in the queue of the merge: a level and its venue.
struct MergeEntry {
    level: MarketDatSourceLevel,
    exchange: Exchange,
}

/// Whether entry `e` is taken before entry `f`.
spec fn entry_beats(side: Side, e: MergeEntry, f: MergeEntry) -> bool {
    precedes(side, e.level, f.level) || (!precedes(side, f.level, e.level) && e.exchange.index()
        < f.exchange.index())
}

/// Whether no two entries of a queue are of the same venue.
spec fn venues_distinct(queue: Seq<MergeEntry>) -> bool {
    forall|i: int, j: int| 0 <= i < j < queue.len() ==> queue[i].exchange != queue[j].exchange
}

/// Tells whether level `a` comes strictly before level `b` on a side.
pub fn level_precedes(side: Side, a: &MarketDatSourceLevel, b: &MarketDatSourceLevel) -> (before: bool)
    ensures
        before == precedes(side, *a, *b),
{
    let price_a = total_order_key(a.price);
    let price_b = total_order_key(b.price);
    let more = total_order_key(a.amount) > total_order_key(b.amount);
    match side {
        Side::Bid => price_a > price_b || (price_a == price_b && more),
        Side::Ask => price_a < price_b || (price_a == price_b && more),
    }
}

/// Tells whether entry `e` is taken before entry `f`.
fn entry_precedes(side: Side, e: &MergeEntry, f: &MergeEntry) -> (before: bool)
    ensures
        before == entry_beats(side, *e, *f),
{
    level_precedes(side, &e.level, &f.level) || (!level_precedes(side, &f.level, &e.level)
        && e.exchange.ordinal() < f.exchange.ordinal())
}

/// Finds the entry of the queue that is taken before all the others.
fn best_entry(queue: &Vec<MergeEntry>, side: Side) -> (at: usize)
    requires
        queue.len() > 0,
        venues_distinct(queue@),
    ensures
        at < queue.len(),
        forall|j: int| 0 <= j < queue.len() && j != at ==> entry_beats(side, queue[at as int], queue[j]),
{
    let mut at: usize = 0;
    let mut i: usize = 1;
    while i < queue.len()
        invariant
            1 <= i <= queue.len(),
            at < i,
            venues_distinct(queue@),
            forall|j: int| 0 <= j < i && j != at ==> entry_beats(side, queue[at as int], queue[j]),
        decreases queue.len() - i,
    {
        if entry_precedes(side, &queue[i], &queue[at]) {
            at = i;
        }
        i += 1;
    }
    at
}

/// The levels of one side of an image.
fn side_slice(book: &OrderBook, side: Side) -> (levels: &[MarketDatSourceLevel])
    ensures
        levels@ == side_of(*book, side),
        levels@.len() <= DEFAULT_DEPTH,
{
    match side {
        Side::Bid => side_as_slice(&book.bids),
        Side::Ask => side_as_slice(&book.asks),
    }
}

/// Whether an entry holds the head of its slot.
spec fn holds_head(sides: Seq<Seq<MarketDatSourceLevel>>, cursors: Seq<int>, slots: int, e: MergeEntry) -> bool {
    let v = e.exchange.index();
    &&& v < slots
    &&& cursors[v] < sides[v].len()
    &&& e.level == sides[v][cursors[v]]
}

/// Whether the queue holds an entry of slot `v`.
spec fn queued(queue: Seq<MergeEntry>, v: int) -> bool {
    exists|j: int| 0 <= j < queue.len() && (#[trigger] queue[j]).exchange.index() == v
}

/// The index of the next level to read from slot `v`: one past its head
/// where it has one, since the head waits in the queue.
spec fn read_position(sides: Seq<Seq<MarketDatSourceLevel>>, cursors: Seq<int>, v: int) -> int {
    if cursors[v] < sides[v].len() {
        cursors[v] + 1
    } else {
        cursors[v]
    }
}

/// What ties the queue and the read positions of a running merge to the
/// cursors of its description, once the first `slots` slots are seeded: the
/// queue holds the head of every slot that has one, once.
spec fn queue_matches(
    sides: Seq<Seq<MarketDatSourceLevel>>,
    cursors: Seq<int>,
    queue: Seq<MergeEntry>,
    next: Seq<usize>,
    slots: int,
) -> bool {
    &&& cursors.len() == sides.len()
    &&& next.len() == slots
    &&& 0 <= slots <= sides.len()
    &&& venues_distinct(queue)
    &&& forall|v: int| 0 <= v < sides.len() ==> 0 <= #[trigger] cursors[v] <= sides[v].len()
    &&& forall|v: int| slots <= v < sides.len() ==> #[trigger] cursors[v] == 0
    &&& forall|v: int| 0 <= v < slots ==> #[trigger] next[v] == read_position(sides, cursors, v)
    &&& forall|j: int| 0 <= j < queue.len() ==> holds_head(sides, cursors, slots, #[trigger] queue[j])
    &&& forall|v: int| 0 <= v < slots && cursors[v] < sides[v].len() ==> #[trigger] queued(queue, v)
}

/// Seeding a slot that has a level puts its first level into the queue.
proof fn lemma_seed_level(
    sides: Seq<Seq<MarketDatSourceLevel>>,
    queue: Seq<MergeEntry>,
    next: Seq<usize>,
    slots: int,
    entry: MergeEntry,
)
    requires
        queue_matches(sides, start_cursors(sides), queue, next, slots),
        slots < sides.len(),
        sides[slots].len() > 0,
        entry.exchange.index() == slots,
        entry.level == sides[slots][0],
    ensures
        queue_matches(sides, start_cursors(sides), queue.push(entry), next.push(1), slots + 1),
{
    let cursors = start_cursors(sides);
    let after = queue.push(entry);
    assert forall|i: int, j: int| 0 <= i < j < after.len() implies after[i].exchange != after[j].exchange by {
        assert(holds_head(sides, cursors, slots, queue[i]));
    }
    assert forall|j: int| 0 <= j < after.len() implies holds_head(sides, cursors, slots + 1, #[trigger] after[j]) by {
        if j < queue.len() {
            assert(holds_head(sides, cursors, slots, queue[j]));
        }
    }
    assert forall|v: int| 0 <= v < slots + 1 && cursors[v] < sides[v].len() implies #[trigger] queued(after, v) by {
        if v < slots {
            assert(queued(queue, v));
            let j = choose|j: int| 0 <= j < queue.len() && (#[trigger] queue[j]).exchange.index() == v;
            assert(after[j].exchange.index() == v);
        } else {
            assert(after[queue.len() as int].exchange.index() == v);
        }
    }
}

/// Seeding a slot without levels leaves the queue as it is.
proof fn lemma_seed_empty(
    sides: Seq<Seq<MarketDatSourceLevel>>,
    queue: Seq<MergeEntry>,
    next: Seq<usize>,
    slots: int,
)
    requires
        queue_matches(sides, start_cursors(sides), queue, next, slots),
        slots < sides.len(),
        sides[slots].len() == 0,
    ensures
        queue_matches(sides, start_cursors(sides), queue, next.push(0), slots + 1),
{
    let cursors = start_cursors(sides);
    assert forall|j: int| 0 <= j < queue.len() implies holds_head(sides, cursors, slots + 1, #[trigger] queue[j]) by {
        assert(holds_head(sides, cursors, slots, queue[j]));
    }
    assert forall|v: int| 0 <= v < slots + 1 && cursors[v] < sides[v].len() implies #[trigger] queued(queue, v) by {
        assert(queued(queue, v));
    }
}

/// The entry that is taken before all others in the queue is the head of
/// the best slot.
proof fn lemma_best_entry_is_best_slot(
    side: Side,
    sides: Seq<Seq<MarketDatSourceLevel>>,
    cursors: Seq<int>,
    queue: Seq<MergeEntry>,
    next: Seq<usize>,
    at: int,
)
    requires
        queue_matches(sides, cursors, queue, next, sides.len() as int),
        0 <= at < queue.len(),
        forall|j: int| 0 <= j < queue.len() && j != at ==> entry_beats(side, queue[at], queue[j]),
    ensures
        best_among(side, sides, cursors, sides.len() as int) == Some(queue[at].exchange.index()),
        holds_head(sides, cursors, sides.len() as int, queue[at]),
{
    let v = queue[at].exchange.index();
    assert(holds_head(sides, cursors, sides.len() as int, queue[at]));
    assert forall|w: int| 0 <= w < sides.len() && w != v && head_available(sides, cursors, w) implies beats(
        side,
        sides,
        cursors,
        v,
        w,
    ) by {
        assert(queued(queue, w));
        let j = choose|j: int| 0 <= j < queue.len() && (#[trigger] queue[j]).exchange.index() == w;
        assert(holds_head(sides, cursors, sides.len() as int, queue[j]));
        assert(entry_beats(side, queue[at], queue[j]));
    }
    lemma_best_among_unique(side, sides, cursors, sides.len() as int, v);
}

/// With an empty queue no slot has a head left.
proof fn lemma_empty_queue_ends_merge(
    side: Side,
    sides: Seq<Seq<MarketDatSourceLevel>>,
    cursors: Seq<int>,
    queue: Seq<MergeEntry>,
    next: Seq<usize>,
)
    requires
        queue_matches(sides, cursors, queue, next, sides.len() as int),
        queue.len() == 0,
    ensures
        best_among(side, sides, cursors, sides.len() as int) is None,
{
    lemma_best_among(side, sides, cursors, sides.len() as int);
    if best_among(side, sides, cursors, sides.len() as int) is Some {
        let u = best_among(side, sides, cursors, sides.len() as int)->0;
        assert(queued(queue, u));
    }
}

/// The queue without the entry at `at`, the last entry moved into its place.
spec fn without(queue: Seq<MergeEntry>, at: int) -> Seq<MergeEntry> {
    queue.update(at, queue.last()).drop_last()
}

/// The entries left when one is taken are those of the other slots.
proof fn lemma_without(queue: Seq<MergeEntry>, at: int)
    requires
        0 <= at < queue.len(),
        venues_distinct(queue),
    ensures
        venues_distinct(without(queue, at)),
        forall|j: int|
            0 <= j < without(queue, at).len() ==> (#[trigger] without(queue, at)[j]).exchange != queue[at].exchange,
        forall|j: int|
            0 <= j < without(queue, at).len() ==> exists|k: int|
                0 <= k < queue.len() && queue[k] == #[trigger] without(queue, at)[j],
        forall|w: int| w != queue[at].exchange.index() && queued(queue, w) ==> #[trigger] queued(without(queue, at), w),
{
    let rest = without(queue, at);
    let last = queue.len() - 1;
    assert forall|i: int, j: int| 0 <= i < j < rest.len() implies rest[i].exchange != rest[j].exchange by {
        let ki = if i == at { last } else { i };
        let kj = if j == at { last } else { j };
        assert(rest[i] == queue[ki] && rest[j] == queue[kj]);
    }
    assert forall|j: int| 0 <= j < rest.len() implies (#[trigger] rest[j]).exchange != queue[at].exchange by {
        let k = if j == at { last } else { j };
        assert(rest[j] == queue[k]);
    }
    assert forall|j: int| 0 <= j < rest.len() implies exists|k: int|
        0 <= k < queue.len() && queue[k] == #[trigger] rest[j] by {
        let k = if j == at { last } else { j };
        assert(rest[j] == queue[k]);
    }
    assert forall|w: int| w != queue[at].exchange.index() && queued(queue, w) implies #[trigger] queued(rest, w) by {
        let k = choose|k: int| 0 <= k < queue.len() && (#[trigger] queue[k]).exchange.index() == w;
        let j = if k == last { at } else { k };
        assert(rest[j] == queue[k]);
        assert(rest[j].exchange.index() == w);
    }
}

/// Taking the best entry and putting the next level of its slot into the
/// queue, where there is one, advances the cursor of that slot by one.
proof fn lemma_advance(
    sides: Seq<Seq<MarketDatSourceLevel>>,
    cursors: Seq<int>,
    queue: Seq<MergeEntry>,
    next: Seq<usize>,
    at: int,
)
    requires
        queue_matches(sides, cursors, queue, next, sides.len() as int),
        0 <= at < queue.len(),
    ensures
        ({
            let v = queue[at].exchange.index();
            let moved = cursors.update(v, cursors[v] + 1);
            let position = next[v] as int;
            &&& 0 <= v < sides.len()
            &&& position == cursors[v] + 1
            &&& position <= sides[v].len()
            &&& position < sides[v].len() && position < usize::MAX ==> queue_matches(
                sides,
                moved,
                without(queue, at).push(MergeEntry { level: sides[v][position], exchange: queue[at].exchange }),
                next.update(v, (position + 1) as usize),
                sides.len() as int,
            )
            &&& position == sides[v].len() ==> queue_matches(sides, moved, without(queue, at), next, sides.len() as int)
        }),
{
    let slots = sides.len() as int;
    let v = queue[at].exchange.index();
    let moved = cursors.update(v, cursors[v] + 1);
    let position = next[v] as int;
    let rest = without(queue, at);
    assert(holds_head(sides, cursors, slots, queue[at]));
    assert(next[v] == read_position(sides, cursors, v));
    lemma_without(queue, at);
    assert forall|j: int| 0 <= j < rest.len() implies holds_head(sides, moved, slots, #[trigger] rest[j]) by {
        let k = choose|k: int| 0 <= k < queue.len() && queue[k] == rest[j];
        assert(holds_head(sides, cursors, slots, queue[k]));
    }
    if position < sides[v].len() && position < usize::MAX {
        let entry = MergeEntry { level: sides[v][position], exchange: queue[at].exchange };
        let after = rest.push(entry);
        let read = next.update(v, (position + 1) as usize);
        assert forall|i: int, j: int| 0 <= i < j < after.len() implies after[i].exchange != after[j].exchange by {
            if j < rest.len() {
                assert(rest[i].exchange != rest[j].exchange);
            } else {
                assert(rest[i].exchange != queue[at].exchange);
            }
        }
        assert forall|j: int| 0 <= j < after.len() implies holds_head(sides, moved, slots, #[trigger] after[j]) by {
            if j < rest.len() {
                assert(holds_head(sides, moved, slots, rest[j]));
            }
        }
        assert forall|w: int| 0 <= w < slots && moved[w] < sides[w].len() implies #[trigger] queued(after, w) by {
            if w == v {
                assert(after[rest.len() as int].exchange.index() == w);
            } else {
                assert(queued(queue, w));
                assert(queued(rest, w));
                let j = choose|j: int| 0 <= j < rest.len() && (#[trigger] rest[j]).exchange.index() == w;
                assert(after[j].exchange.index() == w);
            }
        }
        assert forall|w: int| 0 <= w < slots implies #[trigger] read[w] == read_position(sides, moved, w) by {
            assert(next[w] == read_position(sides, cursors, w));
        }
        assert(queue_matches(sides, moved, after, read, slots));
    }
    if position == sides[v].len() {
        assert forall|w: int| 0 <= w < slots && moved[w] < sides[w].len() implies #[trigger] queued(rest, w) by {
            assert(queued(queue, w));
        }
        assert forall|w: int| 0 <= w < slots implies #[trigger] next[w] == read_position(sides, moved, w) by {
            assert(next[w] == read_position(sides, cursors, w));
        }
        assert(queue_matches(sides, moved, rest, next, slots));
    }
}

/// Merges one side of a table of images: the best `DEFAULT_DEPTH` levels
/// over all venues, best first, each with the name of its venue. A table
/// with a level in a slot past the last venue is refused.
pub fn merge_side(images: &[OrderBook], side: Side) -> (merged: Result<ArrayVec<Level, DEFAULT_DEPTH>, MergeError>)
    ensures
        match merged {
            Ok(levels) => {
                &&& slots_have_venues(sides_of(images@, side))
                &&& views_of(merged_levels(levels)) == merged_side(images@, side)
                &&& merged_levels(levels).len() <= DEFAULT_DEPTH
            },
            Err(e) => e == MergeError::InvalidExchangeIndex && !slots_have_venues(sides_of(images@, side)),
        },
{
    let ghost sides = sides_of(images@, side);
    let ghost mut cursors = start_cursors(sides);
    let mut value_vec: Vec<MergeEntry> = Vec::new();
    let mut exchange_index_vec: Vec<usize> = Vec::new();
    let mut result = merged_new();

    let mut index: usize = 0;
    while index < images.len()
        invariant
            index <= images.len(),
            sides == sides_of(images@, side),
            cursors == start_cursors(sides),
            queue_matches(sides, cursors, value_vec@, exchange_index_vec@, index as int),
            forall|v: int| Exchange::VARIANT_COUNT <= v < index ==> (#[trigger] sides[v]).len() == 0,
        decreases images.len() - index,
    {
        let levels = side_slice(&images[index], side);
        if levels.len() > 0 {
            match Exchange::from_usize(index) {
                Some(exchange) => {
                    let entry = MergeEntry { level: levels[0], exchange };
                    proof {
                        lemma_seed_level(sides, value_vec@, exchange_index_vec@, index as int, entry);
                    }
                    value_vec.push(entry);
                    exchange_index_vec.push(1);
                },
                None => {
                    assert(sides[index as int].len() > 0);
                    return Err(MergeError::InvalidExchangeIndex);
                },
            }
        } else {
            proof {
                lemma_seed_empty(sides, value_vec@, exchange_index_vec@, index as int);
            }
            exchange_index_vec.push(0);
        }
        index += 1;
    }

    let ghost mut emitted: Seq<(int, int)> = Seq::empty();
    assert(views_of(merged_levels(result)) =~= published(sides, emitted));
    while !merged_is_full(&result) && value_vec.len() > 0
        invariant
            sides == sides_of(images@, side),
            queue_matches(sides, cursors, value_vec@, exchange_index_vec@, images.len() as int),
            merged_levels(result).len() <= DEFAULT_DEPTH,
            merged_levels(result).len() == emitted.len(),
            views_of(merged_levels(result)) == published(sides, emitted),
            merged_picks(side, sides) == emitted + merge_from(
                side,
                sides,
                cursors,
                (DEFAULT_DEPTH - merged_levels(result).len()) as nat,
            ),
        decreases DEFAULT_DEPTH - merged_levels(result).len(),
    {
        let at = best_entry(&value_vec, side);
        let ghost queue_before = value_vec@;
        let ghost levels_before = merged_levels(result);
        let ghost room = (DEFAULT_DEPTH - levels_before.len()) as nat;
        let first_item = value_vec.swap_remove(at);
        let first_item_exchange_index = first_item.exchange.ordinal();
        let ghost v = first_item_exchange_index as int;
        proof {
            lemma_best_entry_is_best_slot(side, sides, cursors, queue_before, exchange_index_vec@, at as int);
            lemma_advance(sides, cursors, queue_before, exchange_index_vec@, at as int);
            assert(value_vec@ == without(queue_before, at as int));
        }
        merged_push(
            &mut result,
            Level {
                price: first_item.level.price,
                amount: first_item.level.amount,
                exchange: first_item.exchange.to_string(),
            },
        );
        proof {
            let pick = (v, cursors[v]);
            let levels_after = merged_levels(result);
            assert(levels_after[levels_after.len() - 1]@ == publish(sides, pick));
            assert forall|i: int| 0 <= i < levels_after.len() implies views_of(levels_after)[i] == published(
                sides,
                emitted.push(pick),
            )[i] by {
                if i < levels_before.len() {
                    assert(levels_after[i] == levels_before[i]);
                    assert(views_of(levels_before)[i] == levels_before[i]@);
                }
            }
            assert(views_of(levels_after) =~= published(sides, emitted.push(pick)));
            assert(merge_from(side, sides, cursors, room) == seq![pick] + merge_from(
                side,
                sides,
                cursors.update(v, cursors[v] + 1),
                (room - 1) as nat,
            ));
            assert(emitted + (seq![pick] + merge_from(
                side,
                sides,
                cursors.update(v, cursors[v] + 1),
                (room - 1) as nat,
            )) =~= emitted.push(pick) + merge_from(
                side,
                sides,
                cursors.update(v, cursors[v] + 1),
                (room - 1) as nat,
            ));
            emitted = emitted.push(pick);
            cursors = cursors.update(v, cursors[v] + 1);
        }
        let levels = side_slice(&images[first_item_exchange_index], side);
        let next_index = exchange_index_vec[first_item_exchange_index];
        if next_index < levels.len() {
            value_vec.push(MergeEntry { level: levels[next_index], exchange: first_item.exchange });
            exchange_index_vec.set(first_item_exchange_index, next_index + 1);
        }
    }
    proof {
        if merged_levels(result).len() < DEFAULT_DEPTH {
            lemma_empty_queue_ends_merge(side, sides, cursors, value_vec@, exchange_index_vec@);
        }
        assert(merged_picks(side, sides) =~= emitted);
        assert forall|v: int| Exchange::VARIANT_COUNT <= v < sides.len() implies (#[trigger] sides[v]).len() == 0 by {}
    }
    Ok(result)
}

/// The levels of a merged side as a vector, in their order.
pub fn to_vec(merged: &ArrayVec<Level, DEFAULT_DEPTH>) -> (levels: Vec<Level>)
    ensures
        levels.deep_view() == views_of(merged_levels(*merged)),
        levels.len() == merged_levels(*merged).len(),
        levels.len() <= DEFAULT_DEPTH,
{
    let held = merged_as_slice(merged);
    let mut levels: Vec<Level> = Vec::new();
    let mut i: usize = 0;
    while i < held.len()
        invariant
            i <= held.len(),
            held@ == merged_levels(*merged),
            levels.len() == i,
            forall|k: int| 0 <= k < i ==> (#[trigger] levels@[k])@ == held@[k]@,
        decreases held.len() - i,
    {
        levels.push(Level { price: held[i].price, amount: held[i].amount, exchange: held[i].exchange.clone() });
        i += 1;
    }
    assert(levels.deep_view() =~= views_of(merged_levels(*merged)));
    levels
}

/// The summary of a table of images: both merged sides, where neither is
/// empty.
pub open spec fn summary_of(images: Seq<OrderBook>) -> Option<SummaryView> {
    let bids = merged_side(images, Side::Bid);
    let asks = merged_side(images, Side::Ask);
    if bids.len() == 0 || asks.len() == 0 {
        None
    } else {
        Some(SummaryView { bids, asks })
    }
}

/// The merge engine: one image per venue, in the order of the venues.
pub struct Aggregator {
    exchange_orderbook_array: [OrderBook; Exchange::VARIANT_COUNT],
}

impl Aggregator {
    /// The table of images, one slot per venue.
    pub closed spec fn images(&self) -> Seq<OrderBook> {
        self.exchange_orderbook_array@
    }

    /// The table has one slot per venue.
    pub proof fn lemma_one_slot_per_venue(&self)
        ensures
            self.images().len() == Exchange::VARIANT_COUNT,
    {
    }

    /// An aggregator whose images are all empty.
    pub fn new() -> (aggregator: Aggregator)
        ensures
            aggregator.images().len() == Exchange::VARIANT_COUNT,
            forall|v: int|
                0 <= v < Exchange::VARIANT_COUNT ==> {
                    &&& (#[trigger] aggregator.images()[v]).bid_levels().len() == 0
                    &&& aggregator.images()[v].ask_levels().len() == 0
                },
    {
        Aggregator { exchange_orderbook_array: [OrderBook::new(), OrderBook::new()] }
    }

    /// Merges the bids of a table of images.
    pub fn merge_bid(exchange_orderbook_array: &[OrderBook]) -> (merged: Result<
        ArrayVec<Level, DEFAULT_DEPTH>,
        MergeError,
    >)
        ensures
            match merged {
                Ok(levels) => {
                    &&& slots_have_venues(sides_of(exchange_orderbook_array@, Side::Bid))
                    &&& views_of(merged_levels(levels)) == merged_side(exchange_orderbook_array@, Side::Bid)
                    &&& merged_levels(levels).len() <= DEFAULT_DEPTH
                },
                Err(e) => e == MergeError::InvalidExchangeIndex && !slots_have_venues(
                    sides_of(exchange_orderbook_array@, Side::Bid),
                ),
            },
    {
        merge_side(exchange_orderbook_array, Side::Bid)
    }

    /// Merges the asks of a table of images.
    pub fn merge_ask(exchange_orderbook_array: &[OrderBook]) -> (merged: Result<
        ArrayVec<Level, DEFAULT_DEPTH>,
        MergeError,
    >)
        ensures
            match merged {
                Ok(levels) => {
                    &&& slots_have_venues(sides_of(exchange_orderbook_array@, Side::Ask))
                    &&& views_of(merged_levels(levels)) == merged_side(exchange_orderbook_array@, Side::Ask)
                    &&& merged_levels(levels).len() <= DEFAULT_DEPTH
                },
                Err(e) => e == MergeError::InvalidExchangeIndex && !slots_have_venues(
                    sides_of(exchange_orderbook_array@, Side::Ask),
                ),
            },
    {
        merge_side(exchange_orderbook_array, Side::Ask)
    }

    /// Puts a snapshot in the slot of its venue, in place of the image that
    /// was there, and merges both sides of the table. No other slot changes.
    pub fn merge(&mut self, order_book_snap: OrderBookSnap) -> (merged: Result<(Vec<Level>, Vec<Level>), MergeError>)
        ensures
            final(self).images() == old(self).images().update(
                order_book_snap.exchange.index(),
                order_book_snap.order_book,
            ),
            final(self).images().len() == Exchange::VARIANT_COUNT,
            merged matches Ok((bids, asks)) && {
                &&& bids.deep_view() == merged_side(final(self).images(), Side::Bid)
                &&& asks.deep_view() == merged_side(final(self).images(), Side::Ask)
                &&& bids.len() <= DEFAULT_DEPTH
                &&& asks.len() <= DEFAULT_DEPTH
            },
    {
        let slot = order_book_snap.exchange.ordinal();
        self.exchange_orderbook_array[slot] = order_book_snap.order_book;
        let bids = match Aggregator::merge_bid(self.exchange_orderbook_array.as_slice()) {
            Ok(bids) => to_vec(&bids),
            Err(e) => {
                return Err(e);
            },
        };
        let asks = match Aggregator::merge_ask(self.exchange_orderbook_array.as_slice()) {
            Ok(asks) => to_vec(&asks),
            Err(e) => {
                return Err(e);
            },
        };
        Ok((bids, asks))
    }

    /// Takes a snapshot into the table and gives the summary of the table:
    /// both merged sides. Where a merged side is empty there is no summary.
    pub fn merge_and_gen_summary(&mut self, order_book_snap: OrderBookSnap) -> (summary: Result<Summary, MergeError>)
        ensures
            final(self).images() == old(self).images().update(
                order_book_snap.exchange.index(),
                order_book_snap.order_book,
            ),
            match summary {
                Ok(s) => {
                    &&& summary_of(final(self).images()) == Some(s@)
                    &&& 0 < s.bids.len() <= DEFAULT_DEPTH
                    &&& 0 < s.asks.len() <= DEFAULT_DEPTH
                },
                Err(e) => e == MergeError::EmptySide && summary_of(final(self).images()) is None,
            },
    {
        let bid_ask_depth = match self.merge(order_book_snap) {
            Ok(depth) => depth,
            Err(e) => {
                return Err(e);
            },
        };
        if bid_ask_depth.0.len() == 0 || bid_ask_depth.1.len() == 0 {
            return Err(MergeError::EmptySide);
        }
        Ok(Summary { bids: bid_ask_depth.0, asks: bid_ask_depth.1 })
    }
}

/// Feeding the same snapshot a second time leaves the table, and with it the
/// summary, as the first time left them.
pub proof fn lemma_replay_gives_same_summary(images: Seq<OrderBook>, exchange: Exchange, book: OrderBook)
    requires
        images.len() == Exchange::VARIANT_COUNT,
    ensures
        images.update(exchange.index(), book).update(exchange.index(), book) == images.update(
            exchange.index(),
            book,
        ),
        summary_of(images.update(exchange.index(), book).update(exchange.index(), book)) == summary_of(
            images.update(exchange.index(), book),
        ),
{
    assert(images.update(exchange.index(), book).update(exchange.index(), book) =~= images.update(
        exchange.index(),
        book,
    ));
}

/// A snapshot changes the slot of its venue and no other, so two snapshots
/// of different venues give the same table, and the same summary, in either
/// order.
pub proof fn lemma_snapshots_of_two_venues_commute(
    images: Seq<OrderBook>,
    first: Exchange,
    first_book: OrderBook,
    second: Exchange,
    second_book: OrderBook,
)
    requires
        images.len() == Exchange::VARIANT_COUNT,
        first != second,
    ensures
        forall|v: int|
            0 <= v < images.len() && v != first.index() ==> #[trigger] images.update(first.index(), first_book)[v]
                == images[v],
        images.update(first.index(), first_book).update(second.index(), second_book) == images.update(
            second.index(),
            second_book,
        ).update(first.index(), first_book),
        summary_of(images.update(first.index(), first_book).update(second.index(), second_book)) == summary_of(
            images.update(second.index(), second_book).update(first.index(), first_book),
        ),
{
    assert(images.update(first.index(), first_book).update(second.index(), second_book) =~= images.update(
        second.index(),
        second_book,
    ).update(first.index(), first_book));
}

/// The summary depends on the levels that the images hold and on nothing
/// else: two tables with the same levels in every slot have the same
/// summary. So a side that was filled from a report with too many levels
/// gives the summary that the report cut down to the levels kept gives.
pub proof fn lemma_same_levels_give_same_summary(one: Seq<OrderBook>, other: Seq<OrderBook>)
    requires
        sides_of(one, Side::Bid) == sides_of(other, Side::Bid),
        sides_of(one, Side::Ask) == sides_of(other, Side::Ask),
    ensures
        merged_side(one, Side::Bid) == merged_side(other, Side::Bid),
        merged_side(one, Side::Ask) == merged_side(other, Side::Ask),
        summary_of(one) == summary_of(other),
{
}

/// A table in which no venue reports a level on some side has no summary.
pub proof fn lemma_empty_side_gives_no_summary(images: Seq<OrderBook>, side: Side)
    requires
        forall|v: int| 0 <= v < images.len() ==> (#[trigger] sides_of(images, side)[v]).len() == 0,
    ensures
        merged_side(images, side).len() == 0,
        summary_of(images) is None,
{
    lemma_merged_side_of_empty_sides(images, side);
}

} // verus!
