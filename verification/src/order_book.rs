//! The two-sided table of price levels, and its best bid and best ask.

use vstd::prelude::*;
use crate::decimal::{decimal_units, Decimal, EPSILON_UNITS};
use crate::error::DecodeError;
use crate::json::{field_of, find_field, Json};
use vstd::string::StringExecFns;

verus! {

/// The side of the book on which a level rests.
#[derive(Clone, Copy, Debug, PartialEq, Eq, Structural)]
pub enum OrderType {
    Bid,
    Ask,
}

/// One price level.
#[derive(Clone, Copy, Debug, PartialEq, Eq, Structural)]
pub struct OrderBookEntry {
    pub order_type: OrderType,
    pub size: Decimal,
    pub price: Decimal,
}

/// A price level as numbers of units.
pub struct Level {
    pub order_type: OrderType,
    pub price: nat,
    pub size: nat,
}

impl View for OrderBookEntry {
    type V = Level;

    open spec fn view(&self) -> Level {
        Level { order_type: self.order_type, price: self.price@, size: self.size@ }
    }
}

/// The levels of a book by price text.
pub type Levels = Map<Seq<char>, Level>;

/// The side that a delta's flag names: `1` is the bid side, anything else the
/// ask side.
pub open spec fn side_of_flag(flag: u8) -> OrderType {
    if flag == 1 {
        OrderType::Bid
    } else {
        OrderType::Ask
    }
}

/// The table after one level change: a size below `10^-10` removes the key,
/// any other size puts the level at the key.
pub open spec fn delta_applied(
    book: Levels,
    side: OrderType,
    key: Seq<char>,
    price: nat,
    size: nat,
) -> Levels {
    if size < EPSILON_UNITS {
        book.remove(key)
    } else {
        book.insert(key, Level { order_type: side, price, size })
    }
}

/// The table after one level change given as text, where both texts are
/// decimal numerals. The price text is the key.
pub open spec fn text_delta_applied(
    book: Levels,
    side: OrderType,
    price: Seq<char>,
    size: Seq<char>,
) -> Option<Levels> {
    match (decimal_units(price), decimal_units(size)) {
        (Some(p), Some(z)) => Some(delta_applied(book, side, price, p, z)),
        _ => None,
    }
}

/// The table after the level changes `levels` of one side, first to last.
pub open spec fn levels_loaded(
    book: Levels,
    side: OrderType,
    levels: Seq<(Seq<char>, Seq<char>)>,
) -> Option<Levels>
    decreases levels.len(),
{
    if levels.len() == 0 {
        Some(book)
    } else {
        match levels_loaded(book, side, levels.drop_last()) {
            Some(before) => text_delta_applied(before, side, levels.last().0, levels.last().1),
            None => None,
        }
    }
}

/// The table that a snapshot gives: the asks loaded into an empty table, then
/// the bids.
pub open spec fn snapshot_loaded(
    asks: Seq<(Seq<char>, Seq<char>)>,
    bids: Seq<(Seq<char>, Seq<char>)>,
) -> Option<Levels> {
    match levels_loaded(Map::empty(), OrderType::Ask, asks) {
        Some(book) => levels_loaded(book, OrderType::Bid, bids),
        None => None,
    }
}

/// Pairs of strings as pairs of character sequences.
pub open spec fn pairs_view(pairs: Seq<(String, String)>) -> Seq<(Seq<char>, Seq<char>)> {
    pairs.map_values(|p: (String, String)| (p.0@, p.1@))
}

/// No level of the table has a size below `10^-10`.
pub open spec fn no_negligible_level(book: Levels) -> bool {
    forall|k: Seq<char>| book.dom().contains(k) ==> (#[trigger] book[k]).size >= EPSILON_UNITS
}

/// Every level of the table has the price that its key reads as.
pub open spec fn keys_are_prices(book: Levels) -> bool {
    forall|k: Seq<char>|
        book.dom().contains(k) ==> decimal_units(k) == Some((#[trigger] book[k]).price)
}

/// What holds of the table of every book: no level is negligible, and every
/// level stands under the text of its own price.
pub open spec fn is_sound(book: Levels) -> bool {
    no_negligible_level(book) && keys_are_prices(book)
}

/// Whether the table has a level on `side`.
pub open spec fn has_side(book: Levels, side: OrderType) -> bool {
    exists|k: Seq<char>| book.dom().contains(k) && (#[trigger] book[k]).order_type == side
}

/// `level` is a bid of the table, and no bid of the table has a greater price.
pub open spec fn is_highest_bid(book: Levels, level: Level) -> bool {
    &&& level.order_type == OrderType::Bid
    &&& exists|k: Seq<char>| book.dom().contains(k) && #[trigger] book[k] == level
    &&& forall|k: Seq<char>|
        book.dom().contains(k) && (#[trigger] book[k]).order_type == OrderType::Bid
            ==> book[k].price <= level.price
}

/// `level` is an ask of the table, and no ask of the table has a smaller price.
pub open spec fn is_lowest_ask(book: Levels, level: Level) -> bool {
    &&& level.order_type == OrderType::Ask
    &&& exists|k: Seq<char>| book.dom().contains(k) && #[trigger] book[k] == level
    &&& forall|k: Seq<char>|
        book.dom().contains(k) && (#[trigger] book[k]).order_type == OrderType::Ask
            ==> book[k].price >= level.price
}

/// `bid` and `ask` are the best bid and the best ask of the table, each
/// absent exactly where its side has no level.
pub open spec fn is_middle(book: Levels, bid: Option<Level>, ask: Option<Level>) -> bool {
    &&& match bid {
        Some(level) => is_highest_bid(book, level),
        None => !has_side(book, OrderType::Bid),
    }
    &&& match ask {
        Some(level) => is_lowest_ask(book, level),
        None => !has_side(book, OrderType::Ask),
    }
}

/// The level of an entry that may be absent.
pub open spec fn level_of(entry: Option<OrderBookEntry>) -> Option<Level> {
    match entry {
        Some(e) => Some(e@),
        None => None,
    }
}

/// The price of the best bid of a table.
pub open spec fn highest_bid_price(book: Levels) -> Option<nat> {
    if has_side(book, OrderType::Bid) {
        Some((choose|level: Level| is_highest_bid(book, level)).price)
    } else {
        None
    }
}

/// The price of the best ask of a table.
pub open spec fn lowest_ask_price(book: Levels) -> Option<nat> {
    if has_side(book, OrderType::Ask) {
        Some((choose|level: Level| is_lowest_ask(book, level)).price)
    } else {
        None
    }
}

/// Side flag, price text and size text of a delta sub-message
/// `["o", flag, price, size, ..]`.
pub open spec fn delta_fields(msg: Json) -> Option<(u8, Seq<char>, Seq<char>)> {
    match msg.spec_items() {
        Some(items) => if items.len() >= 4 {
            match (items[1].spec_as_u8(), items[2].spec_as_text(), items[3].spec_as_text()) {
                (Some(flag), Some(price), Some(size)) => Some((flag, price, size)),
                _ => None,
            }
        } else {
            None
        },
        None => None,
    }
}

/// The fields of an object as pairs of texts, where every value is a string.
pub open spec fn text_pairs(fields: Seq<(String, Json)>) -> Option<Seq<(Seq<char>, Seq<char>)>> {
    if forall|i: int| 0 <= i < fields.len() ==> (#[trigger] fields[i]).1.spec_as_text() is Some {
        Some(Seq::new(fields.len(), |i: int| (fields[i].0@, fields[i].1.spec_as_text()->0)))
    } else {
        None
    }
}

/// Ask levels and bid levels of a snapshot
/// `{"currencyPair": pair, "orderBook": [asks, bids]}`.
pub open spec fn snapshot_sides(input: Json) -> Option<
    (Seq<(Seq<char>, Seq<char>)>, Seq<(Seq<char>, Seq<char>)>),
> {
    match input.spec_fields() {
        Some(fields) => match (field_of(fields, "currencyPair"@), field_of(fields, "orderBook"@)) {
            (Some(pair), Some(sides)) => match (pair.spec_as_text(), sides.spec_items()) {
                (Some(_), Some(items)) => if items.len() == 2 {
                    match (items[0].spec_fields(), items[1].spec_fields()) {
                        (Some(asks), Some(bids)) => match (text_pairs(asks), text_pairs(bids)) {
                            (Some(a), Some(b)) => Some((a, b)),
                            _ => None,
                        },
                        _ => None,
                    }
                } else {
                    None
                },
                _ => None,
            },
            _ => None,
        },
        None => None,
    }
}

/// The table of a book that may be absent.
pub open spec fn book_view(book: Option<OrderBook>) -> Option<Levels> {
    match book {
        Some(b) => Some(b@),
        None => None,
    }
}

/// The table inside the result of a book operation.
pub open spec fn result_view(r: Result<Option<OrderBook>, DecodeError>) -> Result<
    Option<Levels>,
    DecodeError,
> {
    match r {
        Ok(book) => Ok(book_view(book)),
        Err(e) => Err(e),
    }
}

/// What applying the delta sub-message `msg` to a table gives. A
/// sub-message of another shape is refused; an absent table stays absent;
/// otherwise both texts must be decimal numerals.
pub open spec fn delta_book(book: Option<Levels>, msg: Json) -> Result<
    Option<Levels>,
    DecodeError,
> {
    match delta_fields(msg) {
        None => Err(DecodeError::BadShape),
        Some((flag, price, size)) => match book {
            None => Ok(None),
            Some(b) => match text_delta_applied(b, side_of_flag(flag), price, size) {
                Some(changed) => Ok(Some(changed)),
                None => Err(DecodeError::BadDecimal),
            },
        },
    }
}

/// The table that the snapshot `input` describes.
pub open spec fn snapshot_book(input: Json) -> Result<Option<Levels>, DecodeError> {
    match snapshot_sides(input) {
        None => Err(DecodeError::BadShape),
        Some((asks, bids)) => match snapshot_loaded(asks, bids) {
            Some(loaded) => Ok(Some(loaded)),
            None => Err(DecodeError::BadDecimal),
        },
    }
}

/// Loading fails as soon as loading a prefix of the levels fails.
proof fn lemma_loaded_prefix_fails(
    book: Levels,
    side: OrderType,
    levels: Seq<(Seq<char>, Seq<char>)>,
    j: int,
)
    requires
        0 <= j <= levels.len(),
        levels_loaded(book, side, levels.subrange(0, j)) is None,
    ensures
        levels_loaded(book, side, levels) is None,
    decreases levels.len(),
{
    if j == levels.len() {
        assert(levels.subrange(0, j) =~= levels);
    } else {
        assert(levels.drop_last().subrange(0, j) =~= levels.subrange(0, j));
        lemma_loaded_prefix_fails(book, side, levels.drop_last(), j);
    }
}

/// No key stands at two places of the list.
spec fn keys_distinct(s: Seq<(String, OrderBookEntry)>) -> bool {
    forall|i: int, j: int| 0 <= i < j < s.len() ==> (#[trigger] s[i]).0@ != (#[trigger] s[j]).0@
}

/// No entry of the list has a negligible size.
spec fn sizes_count(s: Seq<(String, OrderBookEntry)>) -> bool {
    forall|i: int| 0 <= i < s.len() ==> (#[trigger] s[i]).1.size@ >= EPSILON_UNITS
}

/// Every key of the list reads as the price of its entry.
spec fn keys_read(s: Seq<(String, OrderBookEntry)>) -> bool {
    forall|i: int| 0 <= i < s.len() ==> decimal_units((#[trigger] s[i]).0@) == Some(s[i].1.price@)
}

/// A well-formed list stands for a sound table.
proof fn lemma_entries_sound(s: Seq<(String, OrderBookEntry)>)
    requires
        keys_distinct(s),
        sizes_count(s),
        keys_read(s),
    ensures
        is_sound(entries_map(s)),
{
    let book = entries_map(s);
    assert forall|k: Seq<char>| book.dom().contains(k) implies (#[trigger] book[k]).size
        >= EPSILON_UNITS && decimal_units(k) == Some(book[k].price) by {
        let j = lemma_key_in_entries(s, k);
    }
}

/// The key `k` stands at place `i` of the list.
spec fn has_key(s: Seq<(String, OrderBookEntry)>, k: Seq<char>, i: int) -> bool {
    0 <= i < s.len() && s[i].0@ == k
}

/// The table that a list of keyed entries stands for.
spec fn entries_map(s: Seq<(String, OrderBookEntry)>) -> Levels {
    Map::new(
        |k: Seq<char>| exists|i: int| has_key(s, k, i),
        |k: Seq<char>| s[choose|i: int| has_key(s, k, i)].1@,
    )
}

/// Each entry of a list with distinct keys is in the table, under its key.
proof fn lemma_entry_in_map(s: Seq<(String, OrderBookEntry)>, i: int)
    requires
        keys_distinct(s),
        0 <= i < s.len(),
    ensures
        entries_map(s).dom().contains(s[i].0@),
        entries_map(s)[s[i].0@] == s[i].1@,
{
    let k = s[i].0@;
    assert(has_key(s, k, i));
    let j = choose|j: int| has_key(s, k, j);
    assert(j == i);
}

/// Each key of the table stands somewhere in the list, with its level.
proof fn lemma_key_in_entries(s: Seq<(String, OrderBookEntry)>, k: Seq<char>) -> (i: int)
    requires
        keys_distinct(s),
        entries_map(s).dom().contains(k),
    ensures
        has_key(s, k, i),
        entries_map(s)[k] == s[i].1@,
{
    let i = choose|i: int| has_key(s, k, i);
    i
}

/// Appending an entry under a new key inserts it into the table.
proof fn lemma_map_push(s: Seq<(String, OrderBookEntry)>, e: (String, OrderBookEntry))
    requires
        keys_distinct(s),
        forall|j: int| 0 <= j < s.len() ==> (#[trigger] s[j]).0@ != e.0@,
    ensures
        keys_distinct(s.push(e)),
        entries_map(s.push(e)) == entries_map(s).insert(e.0@, e.1@),
{
    let t = s.push(e);
    let a = entries_map(t);
    let b = entries_map(s).insert(e.0@, e.1@);
    assert(keys_distinct(t));
    assert forall|k: Seq<char>| #[trigger] a.dom().contains(k) == b.dom().contains(k) by {
        if a.dom().contains(k) {
            let j = lemma_key_in_entries(t, k);
            if j < s.len() {
                assert(t[j] == s[j]);
                lemma_entry_in_map(s, j);
            }
        }
        if b.dom().contains(k) {
            if k == e.0@ {
                lemma_entry_in_map(t, s.len() as int);
            } else {
                let j = lemma_key_in_entries(s, k);
                assert(t[j] == s[j]);
                lemma_entry_in_map(t, j);
            }
        }
    }
    assert forall|k: Seq<char>| #[trigger] a.dom().contains(k) implies a[k] == b[k] by {
        let j = lemma_key_in_entries(t, k);
        if j < s.len() {
            assert(t[j] == s[j]);
            lemma_entry_in_map(s, j);
        }
    }
    assert(a =~= b);
}

/// Replacing an entry by one of the same key inserts it into the table.
proof fn lemma_map_update(s: Seq<(String, OrderBookEntry)>, i: int, e: (String, OrderBookEntry))
    requires
        keys_distinct(s),
        0 <= i < s.len(),
        s[i].0@ == e.0@,
    ensures
        keys_distinct(s.update(i, e)),
        entries_map(s.update(i, e)) == entries_map(s).insert(e.0@, e.1@),
{
    let t = s.update(i, e);
    let a = entries_map(t);
    let b = entries_map(s).insert(e.0@, e.1@);
    assert(keys_distinct(t)) by {
        assert forall|x: int, y: int| 0 <= x < y < t.len() implies (#[trigger] t[x]).0@ != (
        #[trigger] t[y]).0@ by {
            assert(t[x].0@ == s[x].0@);
            assert(t[y].0@ == s[y].0@);
        }
    }
    assert forall|k: Seq<char>| #[trigger] a.dom().contains(k) == b.dom().contains(k) by {
        if a.dom().contains(k) {
            let j = lemma_key_in_entries(t, k);
            if j != i {
                assert(t[j] == s[j]);
                lemma_entry_in_map(s, j);
            }
        }
        if b.dom().contains(k) {
            if k == e.0@ {
                lemma_entry_in_map(t, i);
            } else {
                let j = lemma_key_in_entries(s, k);
                assert(t[j] == s[j]);
                lemma_entry_in_map(t, j);
            }
        }
    }
    assert forall|k: Seq<char>| #[trigger] a.dom().contains(k) implies a[k] == b[k] by {
        let j = lemma_key_in_entries(t, k);
        if j != i {
            assert(t[j] == s[j]);
            lemma_entry_in_map(s, j);
        }
    }
    assert(a =~= b);
}

/// Taking an entry out of the list removes its key from the table.
proof fn lemma_map_remove(s: Seq<(String, OrderBookEntry)>, i: int)
    requires
        keys_distinct(s),
        0 <= i < s.len(),
    ensures
        keys_distinct(s.remove(i)),
        entries_map(s.remove(i)) == entries_map(s).remove(s[i].0@),
{
    let t = s.remove(i);
    let a = entries_map(t);
    let b = entries_map(s).remove(s[i].0@);
    assert forall|x: int| 0 <= x < t.len() implies #[trigger] t[x] == s[if x < i {
        x
    } else {
        x + 1
    }] by {}
    assert(keys_distinct(t)) by {
        assert forall|x: int, y: int| 0 <= x < y < t.len() implies (#[trigger] t[x]).0@ != (
        #[trigger] t[y]).0@ by {
            let x0 = if x < i { x } else { x + 1 };
            let y0 = if y < i { y } else { y + 1 };
            assert(t[x] == s[x0]);
            assert(t[y] == s[y0]);
        }
    }
    assert forall|k: Seq<char>| #[trigger] a.dom().contains(k) == b.dom().contains(k) by {
        if a.dom().contains(k) {
            let j = lemma_key_in_entries(t, k);
            let j0 = if j < i { j } else { j + 1 };
            assert(t[j] == s[j0]);
            lemma_entry_in_map(s, j0);
        }
        if b.dom().contains(k) {
            let j = lemma_key_in_entries(s, k);
            let j1 = if j < i { j } else { j - 1 };
            assert(t[j1] == s[j]);
            lemma_entry_in_map(t, j1);
        }
    }
    assert forall|k: Seq<char>| #[trigger] a.dom().contains(k) implies a[k] == b[k] by {
        let j = lemma_key_in_entries(t, k);
        let j0 = if j < i { j } else { j + 1 };
        assert(t[j] == s[j0]);
        lemma_entry_in_map(s, j0);
    }
    assert(a =~= b);
}

/// Removing a key that the list does not hold leaves the table as it is.
proof fn lemma_map_without(s: Seq<(String, OrderBookEntry)>, k: Seq<char>)
    requires
        forall|j: int| 0 <= j < s.len() ==> (#[trigger] s[j]).0@ != k,
    ensures
        entries_map(s).remove(k) == entries_map(s),
{
    assert(!entries_map(s).dom().contains(k)) by {
        if entries_map(s).dom().contains(k) {
            let j = choose|j: int| has_key(s, k, j);
            assert(s[j].0@ == k);
        }
    }
    assert(entries_map(s).remove(k) =~= entries_map(s));
}

/// A list with distinct keys stands for a table of as many levels.
proof fn lemma_map_size(s: Seq<(String, OrderBookEntry)>)
    requires
        keys_distinct(s),
    ensures
        entries_map(s).dom().finite(),
        entries_map(s).dom().len() == s.len(),
    decreases s.len(),
{
    if s.len() == 0 {
        assert(entries_map(s).dom() =~= Set::<Seq<char>>::empty());
    } else {
        let t = s.drop_last();
        assert(keys_distinct(t)) by {
            assert forall|x: int, y: int| 0 <= x < y < t.len() implies (#[trigger] t[x]).0@ != (
            #[trigger] t[y]).0@ by {
                assert(t[x] == s[x]);
                assert(t[y] == s[y]);
            }
        }
        lemma_map_size(t);
        assert forall|j: int| 0 <= j < t.len() implies (#[trigger] t[j]).0@ != s.last().0@ by {
            assert(t[j] == s[j]);
        }
        lemma_map_push(t, s.last());
        assert(t.push(s.last()) =~= s);
        lemma_map_without(t, s.last().0@);
        assert(!entries_map(t).dom().contains(s.last().0@)) by {
            if entries_map(t).dom().contains(s.last().0@) {
                let j = lemma_key_in_entries(t, s.last().0@);
                assert(t[j].0@ == s.last().0@);
            }
        }
    }
}

/// The price levels of one market, each under the price text that the feed
/// gave it. No key occurs twice and no level has a size below `10^-10`.
#[derive(Debug)]
pub struct OrderBook {
    entries: Vec<(String, OrderBookEntry)>,
}

impl View for OrderBook {
    type V = Levels;

    closed spec fn view(&self) -> Levels {
        entries_map(self.entries@)
    }
}

/// Best bid and best ask of a book.
#[derive(Clone, Copy, Debug, PartialEq, Eq, Structural)]
pub struct OrderBookMiddle {
    pub highest_bid: Option<OrderBookEntry>,
    pub lowest_ask: Option<OrderBookEntry>,
}

/// The place of a key in the list, if it is there.
fn position(entries: &Vec<(String, OrderBookEntry)>, key: &String) -> (r: Option<usize>)
    ensures
        match r {
            Some(i) => i < entries@.len() && entries@[i as int].0@ == key@,
            None => forall|j: int| 0 <= j < entries@.len() ==> (#[trigger] entries@[j]).0@ != key@,
        },
{
    let mut i: usize = 0;
    while i < entries.len()
        invariant
            i <= entries@.len(),
            forall|j: int| 0 <= j < i ==> (#[trigger] entries@[j]).0@ != key@,
        decreases entries.len() - i,
    {
        if entries[i].0 == *key {
            return Some(i);
        }
        i += 1;
    }
    None
}

impl OrderBook {
    #[verifier::type_invariant]
    closed spec fn well_formed(self) -> bool {
        keys_distinct(self.entries@) && sizes_count(self.entries@) && keys_read(self.entries@)
    }

    /// A book without levels.
    pub fn new() -> (r: OrderBook)
        ensures
            r@ == Map::<Seq<char>, Level>::empty(),
    {
        let r = OrderBook { entries: Vec::new() };
        assert(r@ =~= Map::<Seq<char>, Level>::empty());
        r
    }

    /// The book after one level change at the key `key`, which reads as
    /// `price`.
    fn put(self, side: OrderType, key: String, price: Decimal, size: Decimal) -> (r: OrderBook)
        requires
            decimal_units(key@) == Some(price@),
        ensures
            r@ == delta_applied(self@, side, key@, price@, size@),
    {
        proof {
            use_type_invariant(&self);
        }
        let ghost before = self.entries@;
        let mut entries = self.entries;
        let found = position(&entries, &key);
        if size.is_negligible() {
            match found {
                Some(i) => {
                    proof {
                        lemma_map_remove(before, i as int);
                    }
                    entries.remove(i);
                },
                None => {
                    proof {
                        lemma_map_without(before, key@);
                    }
                },
            }
        } else {
            let level = (key, OrderBookEntry { order_type: side, size, price });
            match found {
                Some(i) => {
                    proof {
                        lemma_map_update(before, i as int, level);
                    }
                    entries.set(i, level);
                },
                None => {
                    proof {
                        lemma_map_push(before, level);
                    }
                    entries.push(level);
                },
            }
        }
        OrderBook { entries }
    }

    /// The number of levels.
    pub fn len(&self) -> (r: usize)
        ensures
            r == self@.dom().len(),
            self@.dom().finite(),
            is_sound(self@),
    {
        proof {
            use_type_invariant(self);
            lemma_map_size(self.entries@);
            lemma_entries_sound(self.entries@);
        }
        self.entries.len()
    }

    /// The level at a price text.
    pub fn get(&self, key: &String) -> (r: Option<OrderBookEntry>)
        ensures
            match r {
                Some(level) => self@.dom().contains(key@) && self@[key@] == level@,
                None => !self@.dom().contains(key@),
            },
            is_sound(self@),
    {
        proof {
            use_type_invariant(self);
            lemma_entries_sound(self.entries@);
        }
        match position(&self.entries, key) {
            Some(i) => {
                proof {
                    lemma_entry_in_map(self.entries@, i as int);
                }
                Some(self.entries[i].1)
            },
            None => {
                proof {
                    if self@.dom().contains(key@) {
                        let j = lemma_key_in_entries(self.entries@, key@);
                        assert(self.entries@[j].0@ == key@);
                    }
                }
                None
            },
        }
    }
}

/// Puts the levels of one side into a book, first to last.
fn load_side(book: OrderBook, side: OrderType, levels: &Vec<(String, String)>) -> (r: Result<
    OrderBook,
    DecodeError,
>)
    ensures
        match levels_loaded(book@, side, pairs_view(levels@)) {
            Some(loaded) => r matches Ok(b) && b@ == loaded,
            None => r matches Err(e) && e == DecodeError::BadDecimal,
        },
{
    let ghost all = pairs_view(levels@);
    let ghost start = book@;
    let mut current = book;
    let mut i: usize = 0;
    assert(all.subrange(0, 0) =~= Seq::empty());
    while i < levels.len()
        invariant
            i <= levels@.len(),
            start == book@,
            all == pairs_view(levels@),
            levels_loaded(start, side, all.subrange(0, i as int)) == Some(current@),
        decreases levels.len() - i,
    {
        let price = Decimal::parse(levels[i].0.as_str());
        let size = Decimal::parse(levels[i].1.as_str());
        proof {
            assert(all.subrange(0, i + 1).drop_last() =~= all.subrange(0, i as int));
            assert(all.subrange(0, i + 1).last() == (levels@[i as int].0@, levels@[i as int].1@));
        }
        match (price, size) {
            (Some(p), Some(z)) => {
                current = current.put(side, levels[i].0.clone(), p, z);
            },
            _ => {
                proof {
                    lemma_loaded_prefix_fails(start, side, all, i + 1);
                }
                return Err(DecodeError::BadDecimal);
            },
        }
        i += 1;
    }
    assert(all.subrange(0, i as int) =~= all);
    Ok(current)
}

/// Builds the book that a snapshot describes: every ask level, then every
/// bid level, is put into an empty table under its price text. A level
/// whose size is below `10^-10` removes its key, as in a delta.
pub fn load_snapshot(asks: &Vec<(String, String)>, bids: &Vec<(String, String)>) -> (r: Result<
    OrderBook,
    DecodeError,
>)
    ensures
        match snapshot_loaded(pairs_view(asks@), pairs_view(bids@)) {
            Some(loaded) => r matches Ok(b) && b@ == loaded,
            None => r matches Err(e) && e == DecodeError::BadDecimal,
        },
{
    match load_side(OrderBook::new(), OrderType::Ask, asks) {
        Ok(book) => load_side(book, OrderType::Bid, bids),
        Err(e) => Err(e),
    }
}

/// Applies one level change to a book. An absent book stays absent,
/// whatever the texts hold; otherwise the price text is the key, and the
/// size decides between removing the key and putting the level there.
pub fn apply_delta(book: Option<OrderBook>, side_flag: u8, price: &String, size: &String) -> (r:
    Result<Option<OrderBook>, DecodeError>)
    ensures
        match book {
            None => r matches Ok(None),
            Some(b) => match text_delta_applied(b@, side_of_flag(side_flag), price@, size@) {
                Some(changed) => r matches Ok(Some(c)) && c@ == changed,
                None => r matches Err(e) && e == DecodeError::BadDecimal,
            },
        },
{
    match book {
        None => Ok(None),
        Some(b) => {
            let side = if side_flag == 1 {
                OrderType::Bid
            } else {
                OrderType::Ask
            };
            match (Decimal::parse(price.as_str()), Decimal::parse(size.as_str())) {
                (Some(p), Some(z)) => Ok(Some(b.put(side, price.clone(), p, z))),
                _ => Err(DecodeError::BadDecimal),
            }
        },
    }
}

/// Best bid and best ask of a book: the bid with the greatest price and the
/// ask with the least price, each absent where its side has no level.
pub fn find_middle(order_book: &OrderBook) -> (m: OrderBookMiddle)
    ensures
        is_middle(order_book@, level_of(m.highest_bid), level_of(m.lowest_ask)),
        is_sound(order_book@),
{
    proof {
        use_type_invariant(order_book);
        lemma_entries_sound(order_book.entries@);
    }
    let ghost s = order_book.entries@;
    let mut highest_bid: Option<OrderBookEntry> = None;
    let mut lowest_ask: Option<OrderBookEntry> = None;
    let mut i: usize = 0;
    while i < order_book.entries.len()
        invariant
            i <= s.len(),
            s == order_book.entries@,
            match highest_bid {
                Some(best) => best.order_type == OrderType::Bid && (exists|j: int|
                    0 <= j < i && (#[trigger] s[j]).1 == best) && forall|j: int|
                    0 <= j < i && (#[trigger] s[j]).1.order_type == OrderType::Bid
                        ==> s[j].1.price@ <= best.price@,
                None => forall|j: int|
                    0 <= j < i ==> (#[trigger] s[j]).1.order_type != OrderType::Bid,
            },
            match lowest_ask {
                Some(best) => best.order_type == OrderType::Ask && (exists|j: int|
                    0 <= j < i && (#[trigger] s[j]).1 == best) && forall|j: int|
                    0 <= j < i && (#[trigger] s[j]).1.order_type == OrderType::Ask
                        ==> s[j].1.price@ >= best.price@,
                None => forall|j: int|
                    0 <= j < i ==> (#[trigger] s[j]).1.order_type != OrderType::Ask,
            },
        decreases order_book.entries.len() - i,
    {
        let entry: OrderBookEntry = order_book.entries[i].1;
        match entry.order_type {
            OrderType::Bid => {
                let better = match highest_bid {
                    None => true,
                    Some(best) => entry.price.units() > best.price.units(),
                };
                if better {
                    highest_bid = Some(entry);
                }
            },
            OrderType::Ask => {
                let better = match lowest_ask {
                    None => true,
                    Some(best) => entry.price.units() < best.price.units(),
                };
                if better {
                    lowest_ask = Some(entry);
                }
            },
        }
        i += 1;
    }
    proof {
        let book = order_book@;
        assert forall|k: Seq<char>| book.dom().contains(k) implies exists|j: int|
            0 <= j < s.len() && (#[trigger] s[j]).1@ == book[k] by {
            let j = lemma_key_in_entries(s, k);
            assert(s[j].1@ == book[k]);
        }
        match highest_bid {
            Some(best) => {
                let j = choose|j: int| 0 <= j < s.len() && (#[trigger] s[j]).1 == best;
                lemma_entry_in_map(s, j);
                assert(book[s[j].0@] == best@);
            },
            None => {},
        }
        match lowest_ask {
            Some(best) => {
                let j = choose|j: int| 0 <= j < s.len() && (#[trigger] s[j]).1 == best;
                lemma_entry_in_map(s, j);
                assert(book[s[j].0@] == best@);
            },
            None => {},
        }
    }
    OrderBookMiddle { highest_bid, lowest_ask }
}

/// Applies a delta sub-message `["o", flag, price, size, ..]` to a book.
/// The flag `1` names the bid side, any other flag the ask side.
pub fn update_orderbook(order_book: Option<OrderBook>, input: &Json) -> (r: Result<
    Option<OrderBook>,
    DecodeError,
>)
    ensures
        result_view(r) == delta_book(book_view(order_book), *input),
{
    let items = match input.items() {
        Some(items) => items,
        None => { return Err(DecodeError::BadShape); },
    };
    if items.len() < 4 {
        return Err(DecodeError::BadShape);
    }
    match (items[1].as_u8(), items[2].as_text(), items[3].as_text()) {
        (Some(flag), Some(price), Some(size)) => apply_delta(order_book, flag, price, size),
        _ => Err(DecodeError::BadShape),
    }
}

/// The fields of an object as pairs of strings, if every value is a string.
fn pairs_of(fields: &Vec<(String, Json)>) -> (r: Option<Vec<(String, String)>>)
    ensures
        match text_pairs(fields@) {
            Some(pairs) => r matches Some(v) && pairs_view(v@) == pairs,
            None => r is None,
        },
{
    let mut out: Vec<(String, String)> = Vec::new();
    let mut i: usize = 0;
    while i < fields.len()
        invariant
            i <= fields@.len(),
            out@.len() == i,
            forall|j: int|
                0 <= j < i ==> (#[trigger] fields@[j]).1.spec_as_text() == Some(out@[j].1@)
                    && fields@[j].0@ == out@[j].0@,
        decreases fields.len() - i,
    {
        match fields[i].1.as_text() {
            Some(text) => {
                out.push((fields[i].0.clone(), text.clone()));
            },
            None => {
                return None;
            },
        }
        i += 1;
    }
    assert(pairs_view(out@) =~= text_pairs(fields@)->0);
    Some(out)
}

/// Builds the book from a snapshot
/// `{"currencyPair": pair, "orderBook": [asks, bids]}`, where `asks` and
/// `bids` are objects from price text to size text.
pub fn parse_orderbook(input: &Json) -> (r: Result<Option<OrderBook>, DecodeError>)
    ensures
        result_view(r) == snapshot_book(*input),
{
    let fields = match input.fields() {
        Some(fields) => fields,
        None => { return Err(DecodeError::BadShape); },
    };
    let pair = find_field(fields, &String::from_str("currencyPair"));
    let sides = find_field(fields, &String::from_str("orderBook"));
    let items = match (pair, sides) {
        (Some(pair), Some(sides)) => match (pair.as_text(), sides.items()) {
            (Some(_), Some(items)) => items,
            _ => { return Err(DecodeError::BadShape); },
        },
        _ => { return Err(DecodeError::BadShape); },
    };
    if items.len() != 2 {
        return Err(DecodeError::BadShape);
    }
    let (asks, bids) = match (items[0].fields(), items[1].fields()) {
        (Some(asks), Some(bids)) => match (pairs_of(asks), pairs_of(bids)) {
            (Some(a), Some(b)) => (a, b),
            _ => { return Err(DecodeError::BadShape); },
        },
        _ => { return Err(DecodeError::BadShape); },
    };
    match load_snapshot(&asks, &bids) {
        Ok(book) => Ok(Some(book)),
        Err(e) => Err(e),
    }
}

} // verus!
