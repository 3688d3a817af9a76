//! What holds of every book: where the levels of a snapshot come from, what
//! a delta does and that doing it twice is doing it once, that no negligible
//! level is ever kept, and what the best bid and the best ask are.

use vstd::prelude::*;
use crate::decimal::{decimal_units, EPSILON_UNITS};
use crate::error::DecodeError;
use crate::json::Json;
use crate::order_book::{
    delta_applied, delta_book, delta_fields, has_side, highest_bid_price, is_highest_bid,
    is_lowest_ask, is_middle, is_sound, levels_loaded, lowest_ask_price, side_of_flag,
    snapshot_loaded, text_delta_applied, Level, Levels, OrderType,
};

verus! {

/// A level of `levels` stands behind the entry `level` at `key`: its price
/// text is the key and reads as the entry's price, and its size text reads as
/// the entry's size.
pub open spec fn came_from(
    levels: Seq<(Seq<char>, Seq<char>)>,
    key: Seq<char>,
    level: Level,
) -> bool {
    exists|i: int|
        0 <= i < levels.len() && (#[trigger] levels[i]).0 == key && decimal_units(levels[i].0)
            == Some(level.price) && decimal_units(levels[i].1) == Some(level.size)
}

/// After loading the levels of one side, every entry of the table either
/// was there before, unchanged, or is on that side and came from one of the
/// levels.
pub proof fn lemma_loaded_origin(
    start: Levels,
    side: OrderType,
    levels: Seq<(Seq<char>, Seq<char>)>,
    book: Levels,
)
    requires
        levels_loaded(start, side, levels) == Some(book),
    ensures
        forall|k: Seq<char>| #[trigger]
            book.dom().contains(k) ==> (start.dom().contains(k) && start[k] == book[k]) || (
            book[k].order_type == side && came_from(levels, k, book[k])),
    decreases levels.len(),
{
    if levels.len() > 0 {
        let shorter = levels.drop_last();
        let before = levels_loaded(start, side, shorter)->0;
        lemma_loaded_origin(start, side, shorter, before);
        let last = levels.last();
        assert forall|k: Seq<char>| #[trigger] book.dom().contains(k) implies (start.dom().contains(
            k,
        ) && start[k] == book[k]) || (book[k].order_type == side && came_from(
            levels,
            k,
            book[k],
        )) by {
            if k == last.0 {
                assert(levels[levels.len() - 1] == last);
            } else {
                assert(before.dom().contains(k));
                if !(start.dom().contains(k) && start[k] == before[k]) {
                    let i = choose|i: int|
                        0 <= i < shorter.len() && (#[trigger] shorter[i]).0 == k && decimal_units(
                            shorter[i].0,
                        ) == Some(before[k].price) && decimal_units(shorter[i].1) == Some(
                            before[k].size,
                        );
                    assert(levels[i] == shorter[i]);
                }
            }
        }
    }
}

/// The level at place `i` of `levels` is the last word on its key, and it is
/// not negligible: both texts are numerals, the size is at least `10^-10`,
/// and no later level has the same price text.
pub open spec fn stands(levels: Seq<(Seq<char>, Seq<char>)>, i: int) -> bool {
    &&& 0 <= i < levels.len()
    &&& decimal_units(levels[i].0) is Some
    &&& decimal_units(levels[i].1) matches Some(size) && size >= EPSILON_UNITS
    &&& forall|j: int| i < j < levels.len() ==> (#[trigger] levels[j]).0 != levels[i].0
}

/// The entry that the level at place `i` of `levels` makes on `side`.
pub open spec fn level_at(levels: Seq<(Seq<char>, Seq<char>)>, side: OrderType, i: int) -> Level {
    Level {
        order_type: side,
        price: decimal_units(levels[i].0)->0,
        size: decimal_units(levels[i].1)->0,
    }
}

/// After loading the levels of one side, a level that stands is in the
/// table, under its price text and on that side.
pub proof fn lemma_loaded_holds(
    start: Levels,
    side: OrderType,
    levels: Seq<(Seq<char>, Seq<char>)>,
    i: int,
)
    requires
        levels_loaded(start, side, levels) is Some,
        stands(levels, i),
    ensures
        levels_loaded(start, side, levels)->0.dom().contains(levels[i].0),
        levels_loaded(start, side, levels)->0[levels[i].0] == level_at(levels, side, i),
    decreases levels.len(),
{
    if i < levels.len() - 1 {
        let shorter = levels.drop_last();
        assert(shorter[i] == levels[i]);
        assert forall|j: int| i < j < shorter.len() implies (#[trigger] shorter[j]).0
            != shorter[i].0 by {
            assert(shorter[j] == levels[j]);
        }
        lemma_loaded_holds(start, side, shorter, i);
        assert(levels[levels.len() - 1].0 != levels[i].0);
    }
}

/// Loading levels leaves alone every key that none of the levels names.
pub proof fn lemma_loaded_keeps_others(
    start: Levels,
    side: OrderType,
    levels: Seq<(Seq<char>, Seq<char>)>,
    key: Seq<char>,
)
    requires
        levels_loaded(start, side, levels) is Some,
        forall|j: int| 0 <= j < levels.len() ==> (#[trigger] levels[j]).0 != key,
    ensures
        levels_loaded(start, side, levels)->0.dom().contains(key) == start.dom().contains(key),
        start.dom().contains(key) ==> levels_loaded(start, side, levels)->0[key] == start[key],
    decreases levels.len(),
{
    if levels.len() > 0 {
        let shorter = levels.drop_last();
        assert forall|j: int| 0 <= j < shorter.len() implies (#[trigger] shorter[j]).0 != key by {
            assert(shorter[j] == levels[j]);
        }
        lemma_loaded_keeps_others(start, side, shorter, key);
        assert(levels[levels.len() - 1].0 != key);
    }
}

/// The table that a snapshot gives holds every bid level that stands, and
/// every ask level that stands and whose price text no bid level names.
pub proof fn lemma_snapshot_holds(
    asks: Seq<(Seq<char>, Seq<char>)>,
    bids: Seq<(Seq<char>, Seq<char>)>,
    i: int,
)
    requires
        snapshot_loaded(asks, bids) is Some,
    ensures
        stands(bids, i) ==> snapshot_loaded(asks, bids)->0.dom().contains(bids[i].0)
            && snapshot_loaded(asks, bids)->0[bids[i].0] == level_at(bids, OrderType::Bid, i),
        stands(asks, i) && (forall|j: int|
            0 <= j < bids.len() ==> (#[trigger] bids[j]).0 != asks[i].0) ==> snapshot_loaded(
            asks,
            bids,
        )->0.dom().contains(asks[i].0) && snapshot_loaded(asks, bids)->0[asks[i].0] == level_at(
            asks,
            OrderType::Ask,
            i,
        ),
{
    let middle = levels_loaded(Map::empty(), OrderType::Ask, asks)->0;
    if stands(bids, i) {
        lemma_loaded_holds(middle, OrderType::Bid, bids, i);
    }
    if stands(asks, i) && (forall|j: int|
        0 <= j < bids.len() ==> (#[trigger] bids[j]).0 != asks[i].0) {
        lemma_loaded_holds(Map::empty(), OrderType::Ask, asks, i);
        lemma_loaded_keeps_others(middle, OrderType::Bid, bids, asks[i].0);
    }
}

/// In the table that a snapshot gives, every ask came from a level of the
/// ask map and every bid from a level of the bid map.
pub proof fn lemma_snapshot_sides(
    asks: Seq<(Seq<char>, Seq<char>)>,
    bids: Seq<(Seq<char>, Seq<char>)>,
    book: Levels,
)
    requires
        snapshot_loaded(asks, bids) == Some(book),
    ensures
        forall|k: Seq<char>| #[trigger]
            book.dom().contains(k) ==> match book[k].order_type {
                OrderType::Ask => came_from(asks, k, book[k]),
                OrderType::Bid => came_from(bids, k, book[k]),
            },
{
    let middle = levels_loaded(Map::empty(), OrderType::Ask, asks)->0;
    lemma_loaded_origin(Map::empty(), OrderType::Ask, asks, middle);
    lemma_loaded_origin(middle, OrderType::Bid, bids, book);
}

/// A level change given as text keeps a table sound: no level becomes
/// negligible, and the level that is put stands under the text of its price.
pub proof fn lemma_text_delta_keeps_sound(
    book: Levels,
    side: OrderType,
    price: Seq<char>,
    size: Seq<char>,
)
    requires
        is_sound(book),
        text_delta_applied(book, side, price, size) is Some,
    ensures
        is_sound(text_delta_applied(book, side, price, size)->0),
{
}

/// Loading levels keeps a table sound.
pub proof fn lemma_loaded_keeps_sound(
    start: Levels,
    side: OrderType,
    levels: Seq<(Seq<char>, Seq<char>)>,
)
    requires
        is_sound(start),
        levels_loaded(start, side, levels) is Some,
    ensures
        is_sound(levels_loaded(start, side, levels)->0),
    decreases levels.len(),
{
    if levels.len() > 0 {
        let before = levels_loaded(start, side, levels.drop_last())->0;
        lemma_loaded_keeps_sound(start, side, levels.drop_last());
        lemma_text_delta_keeps_sound(before, side, levels.last().0, levels.last().1);
    }
}

/// Every table that a snapshot gives is sound.
pub proof fn lemma_snapshot_is_sound(
    asks: Seq<(Seq<char>, Seq<char>)>,
    bids: Seq<(Seq<char>, Seq<char>)>,
)
    requires
        snapshot_loaded(asks, bids) is Some,
    ensures
        is_sound(snapshot_loaded(asks, bids)->0),
{
    lemma_loaded_keeps_sound(Map::empty(), OrderType::Ask, asks);
    lemma_loaded_keeps_sound(
        levels_loaded(Map::empty(), OrderType::Ask, asks)->0,
        OrderType::Bid,
        bids,
    );
}

/// A level change with a size below `10^-10` leaves the table without the
/// key; any other size leaves the level at the key. No other key is touched.
pub proof fn lemma_delta_effect(
    book: Levels,
    side: OrderType,
    key: Seq<char>,
    price: nat,
    size: nat,
)
    ensures
        size < EPSILON_UNITS ==> !delta_applied(book, side, key, price, size).dom().contains(key),
        size >= EPSILON_UNITS ==> delta_applied(book, side, key, price, size).dom().contains(key)
            && delta_applied(book, side, key, price, size)[key] == (Level {
            order_type: side,
            price,
            size,
        }),
        forall|k: Seq<char>|
            k != key ==> (#[trigger] delta_applied(book, side, key, price, size).dom().contains(k)
                == book.dom().contains(k)) && (book.dom().contains(k) ==> delta_applied(
                book,
                side,
                key,
                price,
                size,
            )[k] == book[k]),
{
}

/// Applying a level change a second time changes nothing.
pub proof fn lemma_delta_idempotent(
    book: Levels,
    side: OrderType,
    key: Seq<char>,
    price: nat,
    size: nat,
)
    ensures
        delta_applied(delta_applied(book, side, key, price, size), side, key, price, size)
            == delta_applied(book, side, key, price, size),
{
    let once = delta_applied(book, side, key, price, size);
    assert(delta_applied(once, side, key, price, size) =~= once);
}

/// Applying a level change given as text a second time changes nothing.
pub proof fn lemma_text_delta_idempotent(
    book: Levels,
    side: OrderType,
    price: Seq<char>,
    size: Seq<char>,
)
    requires
        text_delta_applied(book, side, price, size) is Some,
    ensures
        text_delta_applied(text_delta_applied(book, side, price, size)->0, side, price, size)
            == text_delta_applied(book, side, price, size),
{
    lemma_delta_idempotent(
        book,
        side,
        price,
        decimal_units(price)->0,
        decimal_units(size)->0,
    );
}

/// Applying a delta sub-message a second time gives the table that the first
/// time gave; an absent table stays absent however often.
pub proof fn lemma_delta_book_idempotent(book: Option<Levels>, msg: Json)
    ensures
        book is None && delta_fields(msg) is Some ==> delta_book(book, msg) == Ok::<
            Option<Levels>,
            DecodeError,
        >(None),
        delta_book(book, msg) matches Ok(once) ==> delta_book(once, msg) == delta_book(book, msg),
{
    if let Ok(Some(once)) = delta_book(book, msg) {
        let (flag, price, size) = delta_fields(msg)->0;
        lemma_delta_idempotent(
            book->0,
            side_of_flag(flag),
            price,
            decimal_units(price)->0,
            decimal_units(size)->0,
        );
    }
}

/// No two levels of one side have the same price.
pub open spec fn prices_distinct(book: Levels) -> bool {
    forall|j: Seq<char>, k: Seq<char>|
        book.dom().contains(j) && book.dom().contains(k) && j != k
            && (#[trigger] book[j]).order_type == (#[trigger] book[k]).order_type
            ==> book[j].price != book[k].price
}

/// Where no two levels of one side have the same price, the best bid and
/// the best ask are each one level and no other.
pub proof fn lemma_middle_is_unique(
    book: Levels,
    bid: Option<Level>,
    ask: Option<Level>,
    other_bid: Option<Level>,
    other_ask: Option<Level>,
)
    requires
        prices_distinct(book),
        is_middle(book, bid, ask),
        is_middle(book, other_bid, other_ask),
    ensures
        bid == other_bid,
        ask == other_ask,
{
    if let Some(a) = bid {
        let j = choose|j: Seq<char>| book.dom().contains(j) && #[trigger] book[j] == a;
        assert(book[j].order_type == OrderType::Bid);
        let b = other_bid->0;
        let k = choose|k: Seq<char>| book.dom().contains(k) && #[trigger] book[k] == b;
        assert(book[k].order_type == OrderType::Bid);
    } else if let Some(b) = other_bid {
        let k = choose|k: Seq<char>| book.dom().contains(k) && #[trigger] book[k] == b;
        assert(book[k].order_type == OrderType::Bid);
    }
    if let Some(a) = ask {
        let j = choose|j: Seq<char>| book.dom().contains(j) && #[trigger] book[j] == a;
        assert(book[j].order_type == OrderType::Ask);
        let b = other_ask->0;
        let k = choose|k: Seq<char>| book.dom().contains(k) && #[trigger] book[k] == b;
        assert(book[k].order_type == OrderType::Ask);
    } else if let Some(b) = other_ask {
        let k = choose|k: Seq<char>| book.dom().contains(k) && #[trigger] book[k] == b;
        assert(book[k].order_type == OrderType::Ask);
    }
}

/// An empty table has neither a best bid nor a best ask.
pub proof fn lemma_middle_of_empty(bid: Option<Level>, ask: Option<Level>)
    requires
        is_middle(Map::empty(), bid, ask),
    ensures
        bid is None,
        ask is None,
{
}

/// A table that holds asks only has no best bid, and its best ask is an ask
/// of the least price.
pub proof fn lemma_middle_of_asks(book: Levels, bid: Option<Level>, ask: Option<Level>)
    requires
        is_middle(book, bid, ask),
        !has_side(book, OrderType::Bid),
        exists|k: Seq<char>| book.dom().contains(k),
    ensures
        bid is None,
        ask matches Some(level) && is_lowest_ask(book, level),
{
    let k = choose|k: Seq<char>| book.dom().contains(k);
    assert(book[k].order_type != OrderType::Bid);
    assert(book[k].order_type == OrderType::Ask);
}

/// Every best bid of a table has the price that [`highest_bid_price`] names.
pub proof fn lemma_highest_bid_price(book: Levels, level: Level)
    requires
        is_highest_bid(book, level),
    ensures
        highest_bid_price(book) == Some(level.price),
{
    let k = choose|k: Seq<char>| book.dom().contains(k) && #[trigger] book[k] == level;
    assert(book[k].order_type == OrderType::Bid);
    let other = choose|other: Level| is_highest_bid(book, other);
    let j = choose|j: Seq<char>| book.dom().contains(j) && #[trigger] book[j] == other;
    assert(book[j].order_type == OrderType::Bid);
}

/// Every best ask of a table has the price that [`lowest_ask_price`] names.
pub proof fn lemma_lowest_ask_price(book: Levels, level: Level)
    requires
        is_lowest_ask(book, level),
    ensures
        lowest_ask_price(book) == Some(level.price),
{
    let k = choose|k: Seq<char>| book.dom().contains(k) && #[trigger] book[k] == level;
    assert(book[k].order_type == OrderType::Ask);
    let other = choose|other: Level| is_lowest_ask(book, other);
    let j = choose|j: Seq<char>| book.dom().contains(j) && #[trigger] book[j] == other;
    assert(book[j].order_type == OrderType::Ask);
}

} // verus!
