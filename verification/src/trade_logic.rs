//! The decisions of one position: when to enter, when to raise the target,
//! when to leave, and what to write down each time.
//!
//! Nothing here reads a clock, a socket or a store. A session is a value;
//! each frame of the feed takes it to the next value and yields the actions
//! that the caller is to carry out on the trade record, in order.

use vstd::prelude::*;
use vstd::string::StringExecFns;
use crate::decimal::{differs, scaled_units, Decimal, MAX_UNITS, RATIO_ONE};
use crate::error::DecodeError;
use crate::feed::{parse_message, text_frame, PoloniexMessage, HEARTBEAT_ID};
use crate::json::Json;
use crate::book_laws::{lemma_highest_bid_price, lemma_lowest_ask_price};
use crate::order_book::{
    book_view, delta_book, find_middle, highest_bid_price, lowest_ask_price, parse_orderbook,
    result_view, snapshot_book, update_orderbook, Levels, OrderBook, OrderBookEntry,
    OrderBookMiddle,
};

verus! {

/// Share of the fill price that a position may lose before it is closed, in
/// parts per million.
pub const STOP_LOSS: u32 = 5_000;

/// How far above the target the best bid may stand when a position is
/// entered, in parts per million of the target.
pub const START_ABOVE_TARGET: u32 = 15_000;

/// Widest spread at which a position is entered or left, in parts per
/// million of the best bid.
pub const MAX_SPREAD: u32 = 2_500;

/// The ratios that the rules compare against, each in parts per million.
#[derive(Clone, Copy, Debug, PartialEq, Eq, Structural)]
pub struct Thresholds {
    pub stop_loss: u32,
    pub start_above_target: u32,
    pub max_spread: u32,
}

impl Default for Thresholds {
    fn default() -> (r: Thresholds)
        ensures
            r == (Thresholds {
                stop_loss: STOP_LOSS,
                start_above_target: START_ABOVE_TARGET,
                max_spread: MAX_SPREAD,
            }),
    {
        Thresholds {
            stop_loss: STOP_LOSS,
            start_above_target: START_ABOVE_TARGET,
            max_spread: MAX_SPREAD,
        }
    }
}

/// Where a position stands in its life.
#[derive(Clone, Copy, Debug, PartialEq, Eq, Structural)]
pub enum Phase {
    /// No fill yet.
    AwaitingEntry,
    /// Bought, not yet sold.
    Open,
    /// Sold. Nothing follows.
    Closed,
    /// Never bought; its record is to be deleted. Nothing follows.
    Rejected,
}

/// One position.
#[derive(Clone, Copy, Debug, PartialEq, Eq, Structural)]
pub struct Position {
    pub phase: Phase,
    pub target: Decimal,
    pub open_price: Option<Decimal>,
    pub close_price: Option<Decimal>,
    pub highest_bid_seen: Option<Decimal>,
}

/// A position as numbers of units.
pub struct PositionView {
    pub phase: Phase,
    pub target: nat,
    pub open_price: Option<nat>,
    pub close_price: Option<nat>,
    pub highest_bid_seen: Option<nat>,
}

/// The units of a decimal that may be absent.
pub open spec fn units_of(d: Option<Decimal>) -> Option<nat> {
    match d {
        Some(x) => Some(x@),
        None => None,
    }
}

impl View for Position {
    type V = PositionView;

    open spec fn view(&self) -> PositionView {
        PositionView {
            phase: self.phase,
            target: self.target@,
            open_price: units_of(self.open_price),
            close_price: units_of(self.close_price),
            highest_bid_seen: units_of(self.highest_bid_seen),
        }
    }
}

/// What the caller is to do with the trade record after a step.
#[derive(Clone, Copy, Debug, PartialEq, Eq, Structural)]
pub enum Action {
    /// Nothing.
    Wait,
    /// Delete the record: the position was never entered.
    Reject,
    /// Record the buy: the fill price, the time of the fill, the new target.
    Enter { open_price: Decimal, target: Decimal },
    /// Refresh the checkpoint: the best bid seen, the target, the time.
    Checkpoint { highest_bid: Decimal, target: Decimal },
    /// Record the sell: the fill price and the time of the fill.
    Exit { close_price: Decimal },
}

/// An action as numbers of units.
pub enum ActionView {
    Wait,
    Reject,
    Enter { open_price: nat, target: nat },
    Checkpoint { highest_bid: nat, target: nat },
    Exit { close_price: nat },
}

impl View for Action {
    type V = ActionView;

    open spec fn view(&self) -> ActionView {
        match *self {
            Action::Wait => ActionView::Wait,
            Action::Reject => ActionView::Reject,
            Action::Enter { open_price, target } => ActionView::Enter {
                open_price: open_price@,
                target: target@,
            },
            Action::Checkpoint { highest_bid, target } => ActionView::Checkpoint {
                highest_bid: highest_bid@,
                target: target@,
            },
            Action::Exit { close_price } => ActionView::Exit { close_price: close_price@ },
        }
    }
}

/// The actions of a list, as numbers of units.
pub open spec fn actions_view(actions: Seq<Action>) -> Seq<ActionView> {
    actions.map_values(|a: Action| a@)
}

/// Whether a position still reacts to the feed.
pub open spec fn is_live(phase: Phase) -> bool {
    phase == Phase::AwaitingEntry || phase == Phase::Open
}

/// The share of a price that is kept after the stop loss, in parts per
/// million.
pub open spec fn kept_ratio(stop_loss: u32) -> nat {
    if stop_loss <= RATIO_ONE {
        (RATIO_ONE - stop_loss) as nat
    } else {
        0
    }
}

/// `price * (1 - stop_loss)`, rounded down to a unit.
pub open spec fn stop_target(price: nat, thresholds: Thresholds) -> nat {
    scaled_units(price, kept_ratio(thresholds.stop_loss))
}

/// `(bid - target) / target > ratio`, with the ratio in parts per million.
pub open spec fn overshoots(bid: nat, target: nat, ratio: u32) -> bool {
    bid >= target && (bid - target) * RATIO_ONE > ratio * target
}

/// `(ask - bid) / bid > ratio`, with the ratio in parts per million.
pub open spec fn spread_too_wide(bid: nat, ask: nat, ratio: u32) -> bool {
    ask >= bid && (ask - bid) * RATIO_ONE > ratio * bid
}

/// The position after a buy at `ask`, and the action that records it.
pub open spec fn bought(position: PositionView, ask: nat, thresholds: Thresholds) -> (
    PositionView,
    ActionView,
) {
    (
        PositionView {
            phase: Phase::Open,
            target: stop_target(ask, thresholds),
            open_price: Some(ask),
            close_price: position.close_price,
            highest_bid_seen: position.highest_bid_seen,
        },
        ActionView::Enter { open_price: ask, target: stop_target(ask, thresholds) },
    )
}

/// The entry rules, in this order: a best bid below the target rejects; a
/// best bid too far above the target rejects; a spread too wide waits;
/// otherwise the position is bought at the best ask and remembers the best
/// bid.
pub open spec fn entry_step(position: PositionView, bid: nat, ask: nat, thresholds: Thresholds) -> (
    PositionView,
    ActionView,
) {
    if bid < position.target || overshoots(bid, position.target, thresholds.start_above_target) {
        (
            PositionView {
                phase: Phase::Rejected,
                target: position.target,
                open_price: position.open_price,
                close_price: position.close_price,
                highest_bid_seen: position.highest_bid_seen,
            },
            ActionView::Reject,
        )
    } else if spread_too_wide(bid, ask, thresholds.max_spread) {
        (position, ActionView::Wait)
    } else {
        let after = bought(position, ask, thresholds);
        (
            PositionView {
                phase: after.0.phase,
                target: after.0.target,
                open_price: after.0.open_price,
                close_price: after.0.close_price,
                highest_bid_seen: Some(bid),
            },
            after.1,
        )
    }
}

/// The rules of an open position. A best bid below the target sells at the
/// best bid, unless the spread is too wide: then nothing is sold and only the
/// checkpoint is refreshed. A best bid at or above the target raises the
/// target to `bid * (1 - stop_loss)` where that is higher, and refreshes the
/// checkpoint either way.
pub open spec fn open_step(position: PositionView, bid: nat, ask: nat, thresholds: Thresholds) -> (
    PositionView,
    ActionView,
) {
    if bid < position.target {
        if spread_too_wide(bid, ask, thresholds.max_spread) {
            (
                PositionView {
                    phase: position.phase,
                    target: position.target,
                    open_price: position.open_price,
                    close_price: position.close_price,
                    highest_bid_seen: Some(bid),
                },
                ActionView::Checkpoint { highest_bid: bid, target: position.target },
            )
        } else {
            (
                PositionView {
                    phase: Phase::Closed,
                    target: position.target,
                    open_price: position.open_price,
                    close_price: Some(bid),
                    highest_bid_seen: Some(bid),
                },
                ActionView::Exit { close_price: bid },
            )
        }
    } else {
        let candidate = stop_target(bid, thresholds);
        let target = if candidate > position.target {
            candidate
        } else {
            position.target
        };
        (
            PositionView {
                phase: position.phase,
                target,
                open_price: position.open_price,
                close_price: position.close_price,
                highest_bid_seen: Some(bid),
            },
            ActionView::Checkpoint { highest_bid: bid, target },
        )
    }
}

/// One step of a position on the best prices of the book.
///
/// Without both a best bid and a best ask nothing happens. A position that
/// awaits entry goes by the entry rules. An open position goes by its rules
/// only when the best bid lies more than `10^-10` from the one it saw last;
/// one that has seen none yet waits. A closed or rejected position stays as
/// it is.
pub open spec fn position_step(
    position: PositionView,
    bid: Option<nat>,
    ask: Option<nat>,
    thresholds: Thresholds,
) -> (PositionView, ActionView) {
    match (bid, ask) {
        (Some(b), Some(a)) => match position.phase {
            Phase::AwaitingEntry => entry_step(position, b, a, thresholds),
            Phase::Open => match position.highest_bid_seen {
                Some(seen) => if differs(seen, b) {
                    open_step(position, b, a, thresholds)
                } else {
                    (position, ActionView::Wait)
                },
                None => (position, ActionView::Wait),
            },
            _ => (position, ActionView::Wait),
        },
        _ => (position, ActionView::Wait),
    }
}

/// Whether `part / whole > ratio`, with the ratio in parts per million.
fn exceeds(part: u128, whole: u128, ratio: u32) -> (r: bool)
    requires
        part <= MAX_UNITS,
        whole <= MAX_UNITS,
    ensures
        r == (part * RATIO_ONE > ratio * whole),
{
    assert(part * RATIO_ONE <= MAX_UNITS * RATIO_ONE && ratio * whole
        <= 0xffff_ffff * MAX_UNITS) by (nonlinear_arith)
        requires
            part <= MAX_UNITS,
            whole <= MAX_UNITS,
            ratio <= 0xffff_ffff,
    ;
    part * (RATIO_ONE as u128) > (ratio as u128) * whole
}

/// Whether the best bid stands too far above the target.
pub fn is_overshoot(bid: &Decimal, target: &Decimal, ratio: u32) -> (r: bool)
    ensures
        r == overshoots(bid@, target@, ratio),
{
    let b: u128 = bid.units();
    let t: u128 = target.units();
    b >= t && exceeds(b - t, t, ratio)
}

/// Whether the spread between best bid and best ask is too wide.
pub fn is_wide_spread(bid: &Decimal, ask: &Decimal, ratio: u32) -> (r: bool)
    ensures
        r == spread_too_wide(bid@, ask@, ratio),
{
    let b: u128 = bid.units();
    let a: u128 = ask.units();
    a >= b && exceeds(a - b, b, ratio)
}

/// The target that follows a price: the price less the stop loss.
pub fn target_after(price: &Decimal, thresholds: &Thresholds) -> (r: Decimal)
    ensures
        r@ == stop_target(price@, *thresholds),
{
    let kept: u32 = if thresholds.stop_loss <= RATIO_ONE {
        RATIO_ONE - thresholds.stop_loss
    } else {
        0
    };
    price.scaled(kept)
}

/// Buys at the best ask: the position opens at that price, and its target
/// is set anew from the fill price, since the one it came with rests on
/// slower data.
pub fn do_buy(position: Position, lowest_ask: Decimal, thresholds: &Thresholds) -> (r: (
    Position,
    Action,
))
    ensures
        r.0@ == bought(position@, lowest_ask@, *thresholds).0,
        r.1@ == bought(position@, lowest_ask@, *thresholds).1,
{
    let target = target_after(&lowest_ask, thresholds);
    (
        Position {
            phase: Phase::Open,
            target,
            open_price: Some(lowest_ask),
            close_price: position.close_price,
            highest_bid_seen: position.highest_bid_seen,
        },
        Action::Enter { open_price: lowest_ask, target },
    )
}

/// Decides whether a position that awaits entry is rejected, waits, or is
/// bought.
pub fn check_start(
    position: Position,
    highest_bid: Decimal,
    lowest_ask: Decimal,
    thresholds: &Thresholds,
) -> (r: (Position, Action))
    ensures
        r.0@ == entry_step(position@, highest_bid@, lowest_ask@, *thresholds).0,
        r.1@ == entry_step(position@, highest_bid@, lowest_ask@, *thresholds).1,
{
    if highest_bid.units() < position.target.units() || is_overshoot(
        &highest_bid,
        &position.target,
        thresholds.start_above_target,
    ) {
        return (
            Position {
                phase: Phase::Rejected,
                target: position.target,
                open_price: position.open_price,
                close_price: position.close_price,
                highest_bid_seen: position.highest_bid_seen,
            },
            Action::Reject,
        );
    }
    if is_wide_spread(&highest_bid, &lowest_ask, thresholds.max_spread) {
        return (position, Action::Wait);
    }
    let (after, action) = do_buy(position, lowest_ask, thresholds);
    (
        Position {
            phase: after.phase,
            target: after.target,
            open_price: after.open_price,
            close_price: after.close_price,
            highest_bid_seen: Some(highest_bid),
        },
        action,
    )
}

/// Decides whether an open position is sold, and where its target goes.
pub fn check_sell(
    position: Position,
    highest_bid: Decimal,
    lowest_ask: Decimal,
    thresholds: &Thresholds,
) -> (r: (Position, Action))
    ensures
        r.0@ == open_step(position@, highest_bid@, lowest_ask@, *thresholds).0,
        r.1@ == open_step(position@, highest_bid@, lowest_ask@, *thresholds).1,
{
    if highest_bid.units() < position.target.units() {
        if is_wide_spread(&highest_bid, &lowest_ask, thresholds.max_spread) {
            return (
                Position {
                    phase: position.phase,
                    target: position.target,
                    open_price: position.open_price,
                    close_price: position.close_price,
                    highest_bid_seen: Some(highest_bid),
                },
                Action::Checkpoint { highest_bid, target: position.target },
            );
        }
        return (
            Position {
                phase: Phase::Closed,
                target: position.target,
                open_price: position.open_price,
                close_price: Some(highest_bid),
                highest_bid_seen: Some(highest_bid),
            },
            Action::Exit { close_price: highest_bid },
        );
    }
    let candidate = target_after(&highest_bid, thresholds);
    let target = if candidate.units() > position.target.units() {
        candidate
    } else {
        position.target
    };
    (
        Position {
            phase: position.phase,
            target,
            open_price: position.open_price,
            close_price: position.close_price,
            highest_bid_seen: Some(highest_bid),
        },
        Action::Checkpoint { highest_bid, target },
    )
}

/// The price of a level that may be absent.
pub open spec fn price_of(level: Option<OrderBookEntry>) -> Option<nat> {
    match level {
        Some(l) => Some(l.price@),
        None => None,
    }
}

impl Position {
    /// A position that awaits entry at `target`.
    pub fn awaiting(target: Decimal) -> (r: Position)
        ensures
            r@ == (PositionView {
                phase: Phase::AwaitingEntry,
                target: target@,
                open_price: None,
                close_price: None,
                highest_bid_seen: None,
            }),
    {
        Position {
            phase: Phase::AwaitingEntry,
            target,
            open_price: None,
            close_price: None,
            highest_bid_seen: None,
        }
    }

    /// The position that a stored record describes: open where it has a
    /// fill price, awaiting entry where it has none.
    pub fn resume(
        target: Decimal,
        open_price: Option<Decimal>,
        highest_bid_seen: Option<Decimal>,
    ) -> (r: Position)
        ensures
            r@ == (PositionView {
                phase: if open_price is Some {
                    Phase::Open
                } else {
                    Phase::AwaitingEntry
                },
                target: target@,
                open_price: units_of(open_price),
                close_price: None,
                highest_bid_seen: units_of(highest_bid_seen),
            }),
    {
        let phase = match open_price {
            Some(_) => Phase::Open,
            None => Phase::AwaitingEntry,
        };
        Position { phase, target, open_price, close_price: None, highest_bid_seen }
    }

    /// Whether the position still reacts to the feed.
    pub fn is_live(&self) -> (r: bool)
        ensures
            r == is_live(self.phase),
    {
        match self.phase {
            Phase::AwaitingEntry => true,
            Phase::Open => true,
            Phase::Closed => false,
            Phase::Rejected => false,
        }
    }

    /// Takes the position one step on the best prices of a book.
    pub fn step(self, middle: &OrderBookMiddle, thresholds: &Thresholds) -> (r: (Position, Action))
        ensures
            r.0@ == position_step(
                self@,
                price_of(middle.highest_bid),
                price_of(middle.lowest_ask),
                *thresholds,
            ).0,
            r.1@ == position_step(
                self@,
                price_of(middle.highest_bid),
                price_of(middle.lowest_ask),
                *thresholds,
            ).1,
    {
        match (middle.highest_bid, middle.lowest_ask) {
            (Some(bid), Some(ask)) => match self.phase {
                Phase::AwaitingEntry => check_start(self, bid.price, ask.price, thresholds),
                Phase::Open => match self.highest_bid_seen {
                    Some(seen) => if seen.differs_from(&bid.price) {
                        check_sell(self, bid.price, ask.price, thresholds)
                    } else {
                        (self, Action::Wait)
                    },
                    None => (self, Action::Wait),
                },
                _ => (self, Action::Wait),
            },
            _ => (self, Action::Wait),
        }
    }
}

/// What one controller holds between frames: the channel it is locked to,
/// the book as far as it is known, the position, and the thresholds.
#[derive(Debug)]
pub struct Session {
    pub channel_id: Option<u32>,
    pub order_book: Option<OrderBook>,
    pub position: Position,
    pub thresholds: Thresholds,
}

/// A session as tables and numbers of units.
pub struct SessionView {
    pub channel_id: Option<u32>,
    pub book: Option<Levels>,
    pub position: PositionView,
    pub thresholds: Thresholds,
}

impl View for Session {
    type V = SessionView;

    open spec fn view(&self) -> SessionView {
        SessionView {
            channel_id: self.channel_id,
            book: book_view(self.order_book),
            position: self.position@,
            thresholds: self.thresholds,
        }
    }
}

/// The command tag that a sub-message starts with.
pub open spec fn command_tag(msg: Json) -> Option<Seq<char>> {
    match msg.spec_items() {
        Some(items) => if items.len() >= 1 {
            items[0].spec_as_text()
        } else {
            None
        },
        None => None,
    }
}

/// The book after a sub-message: `"i"` replaces it by a snapshot, `"o"`
/// applies a delta, any other tag leaves it as it is. A sub-message without
/// a tag is refused.
pub open spec fn book_step(book: Option<Levels>, msg: Json) -> Result<Option<Levels>, DecodeError> {
    match command_tag(msg) {
        None => Err(DecodeError::BadShape),
        Some(tag) => if tag == "i"@ {
            if msg.spec_items()->0.len() >= 2 {
                snapshot_book(msg.spec_items()->0[1])
            } else {
                Err(DecodeError::BadShape)
            }
        } else if tag == "o"@ {
            delta_book(book, msg)
        } else {
            Ok(book)
        },
    }
}

/// The best prices of a book that may be absent.
pub open spec fn best_prices(book: Option<Levels>) -> (Option<nat>, Option<nat>) {
    match book {
        Some(b) => (highest_bid_price(b), lowest_ask_price(b)),
        None => (None, None),
    }
}

/// The session after one sub-message, and the action that it calls for:
/// the book is brought up to date, then the position takes one step on the
/// best prices.
pub open spec fn message_step(session: SessionView, msg: Json) -> Result<
    (SessionView, ActionView),
    DecodeError,
> {
    match book_step(session.book, msg) {
        Err(e) => Err(e),
        Ok(book) => {
            let prices = best_prices(book);
            let stepped = position_step(session.position, prices.0, prices.1, session.thresholds);
            Ok(
                (
                    SessionView {
                        channel_id: session.channel_id,
                        book,
                        position: stepped.0,
                        thresholds: session.thresholds,
                    },
                    stepped.1,
                ),
            )
        },
    }
}

/// The session after the sub-messages of one batch, and the actions that
/// they call for, in order. Once the position is closed or rejected the rest
/// of the batch is left alone. A sub-message that cannot be decoded ends the
/// session; the actions before it stand.
pub open spec fn batch_step(session: SessionView, msgs: Seq<Json>) -> (
    Result<SessionView, DecodeError>,
    Seq<ActionView>,
)
    decreases msgs.len(),
{
    if msgs.len() == 0 || !is_live(session.position.phase) {
        (Ok(session), Seq::empty())
    } else {
        match message_step(session, msgs[0]) {
            Err(e) => (Err(e), Seq::empty()),
            Ok((next, action)) => {
                let rest = batch_step(next, msgs.drop_first());
                (rest.0, seq![action] + rest.1)
            },
        }
    }
}

/// The channel a session is locked to after a frame on `channel_id`: the
/// first frame that is no heartbeat sets it, and nothing changes it after.
pub open spec fn locked_channel(locked: Option<u32>, channel_id: u32) -> Option<u32> {
    if locked is None && channel_id != HEARTBEAT_ID {
        Some(channel_id)
    } else {
        locked
    }
}

/// The session after one frame. A frame on another channel than the locked
/// one is passed over.
pub open spec fn frame_step(session: SessionView, channel_id: u32, msgs: Seq<Json>) -> (
    Result<SessionView, DecodeError>,
    Seq<ActionView>,
) {
    let locked = locked_channel(session.channel_id, channel_id);
    let listening = SessionView {
        channel_id: locked,
        book: session.book,
        position: session.position,
        thresholds: session.thresholds,
    };
    if locked == Some(channel_id) {
        batch_step(listening, msgs)
    } else {
        (Ok(listening), Seq::empty())
    }
}

/// The session after one text frame. A text that is no frame ends the
/// session and calls for nothing.
pub open spec fn text_step(session: SessionView, text: Seq<char>) -> (
    Result<SessionView, DecodeError>,
    Seq<ActionView>,
) {
    match text_frame(text) {
        Ok(frame) => frame_step(session, frame.channel_id, frame.messages),
        Err(e) => (Err(e), Seq::empty()),
    }
}

/// The session inside the result of a step.
pub open spec fn session_view(r: Result<Session, DecodeError>) -> Result<SessionView, DecodeError> {
    match r {
        Ok(s) => Ok(s@),
        Err(e) => Err(e),
    }
}

/// Brings a book up to date with one sub-message.
pub fn next_book(order_book: Option<OrderBook>, msg: &Json) -> (r: Result<
    Option<OrderBook>,
    DecodeError,
>)
    ensures
        result_view(r) == book_step(book_view(order_book), *msg),
{
    let items = match msg.items() {
        Some(items) => items,
        None => { return Err(DecodeError::BadShape); },
    };
    if items.len() == 0 {
        return Err(DecodeError::BadShape);
    }
    let tag = match items[0].as_text() {
        Some(tag) => tag,
        None => { return Err(DecodeError::BadShape); },
    };
    let snapshot_tag = String::from_str("i");
    let delta_tag = String::from_str("o");
    if *tag == snapshot_tag {
        if items.len() >= 2 {
            parse_orderbook(&items[1])
        } else {
            Err(DecodeError::BadShape)
        }
    } else if *tag == delta_tag {
        update_orderbook(order_book, msg)
    } else {
        Ok(order_book)
    }
}

/// Takes a session through one sub-message.
pub fn do_message(session: Session, msg: &Json) -> (r: Result<(Session, Action), DecodeError>)
    ensures
        match message_step(session@, *msg) {
            Ok(next) => r matches Ok(x) && x.0@ == next.0 && x.1@ == next.1,
            Err(e) => r matches Err(x) && x == e,
        },
{
    let Session { channel_id, order_book, position, thresholds } = session;
    let book = match next_book(order_book, msg) {
        Ok(book) => book,
        Err(e) => { return Err(e); },
    };
    let middle = match &book {
        Some(b) => {
            let m = find_middle(b);
            proof {
                if let Some(level) = m.highest_bid {
                    lemma_highest_bid_price(b@, level@);
                }
                if let Some(level) = m.lowest_ask {
                    lemma_lowest_ask_price(b@, level@);
                }
            }
            m
        },
        None => OrderBookMiddle { highest_bid: None, lowest_ask: None },
    };
    let (stepped, action) = position.step(&middle, &thresholds);
    Ok((Session { channel_id, order_book: book, position: stepped, thresholds }, action))
}

/// Takes a session through the sub-messages of one batch.
pub fn do_batch(session: Session, msgs: &Vec<Json>) -> (r: (
    Result<Session, DecodeError>,
    Vec<Action>,
))
    ensures
        session_view(r.0) == batch_step(session@, msgs@).0,
        actions_view(r.1@) == batch_step(session@, msgs@).1,
{
    let ghost all = msgs@;
    let ghost first = session@;
    let mut current = session;
    let mut actions: Vec<Action> = Vec::new();
    let mut i: usize = 0;
    assert(all.subrange(0, all.len() as int) =~= all);
    assert(actions_view(actions@) + batch_step(first, all).1 =~= batch_step(first, all).1);
    while i < msgs.len() && current.position.is_live()
        invariant
            i <= all.len(),
            all == msgs@,
            first == session@,
            batch_step(first, all).0 == batch_step(
                current@,
                all.subrange(i as int, all.len() as int),
            ).0,
            batch_step(first, all).1 == actions_view(actions@) + batch_step(
                current@,
                all.subrange(i as int, all.len() as int),
            ).1,
        decreases msgs.len() - i,
    {
        let ghost rest = all.subrange(i as int, all.len() as int);
        let ghost before = current@;
        let ghost done = actions_view(actions@);
        assert(rest[0] == all[i as int]);
        assert(rest.drop_first() =~= all.subrange(i + 1, all.len() as int));
        match do_message(current, &msgs[i]) {
            Ok((next, action)) => {
                current = next;
                actions.push(action);
                proof {
                    let tail = batch_step(current@, rest.drop_first()).1;
                    assert(actions_view(actions@) =~= done.push(action@));
                    assert(done + (seq![action@] + tail) =~= done.push(action@) + tail);
                }
            },
            Err(e) => {
                proof {
                    assert(done + Seq::<ActionView>::empty() =~= done);
                }
                return (Err(e), actions);
            },
        }
        i += 1;
    }
    proof {
        assert(actions_view(actions@) + Seq::<ActionView>::empty() =~= actions_view(actions@));
    }
    (Ok(current), actions)
}

/// Takes a session through one frame: locks the channel on the first frame
/// that is no heartbeat, passes over frames of other channels, and works
/// through the batch otherwise.
pub fn on_frame(session: Session, frame: &PoloniexMessage) -> (r: (
    Result<Session, DecodeError>,
    Vec<Action>,
))
    ensures
        session_view(r.0) == frame_step(session@, frame.channel_id, frame.messages@).0,
        actions_view(r.1@) == frame_step(session@, frame.channel_id, frame.messages@).1,
{
    let Session { channel_id, order_book, position, thresholds } = session;
    let locked = match channel_id {
        None => if frame.channel_id != HEARTBEAT_ID {
            Some(frame.channel_id)
        } else {
            None
        },
        Some(id) => Some(id),
    };
    let listening = Session { channel_id: locked, order_book, position, thresholds };
    let same = match locked {
        Some(id) => id == frame.channel_id,
        None => false,
    };
    if same {
        do_batch(listening, &frame.messages)
    } else {
        let actions: Vec<Action> = Vec::new();
        assert(actions_view(actions@) =~= Seq::<ActionView>::empty());
        (Ok(listening), actions)
    }
}

/// Takes a session through one text frame of the feed.
pub fn on_text(session: Session, text: String) -> (r: (Result<Session, DecodeError>, Vec<Action>))
    ensures
        session_view(r.0) == text_step(session@, text@).0,
        actions_view(r.1@) == text_step(session@, text@).1,
{
    match parse_message(text) {
        Ok(frame) => on_frame(session, &frame),
        Err(e) => {
            let actions: Vec<Action> = Vec::new();
            assert(actions_view(actions@) =~= Seq::<ActionView>::empty());
            (Err(e), actions)
        },
    }
}

impl Session {
    /// A session that has seen no frame yet.
    pub fn start(position: Position, thresholds: Thresholds) -> (r: Session)
        ensures
            r@ == (SessionView {
                channel_id: None,
                book: None,
                position: position@,
                thresholds,
            }),
    {
        Session { channel_id: None, order_book: None, position, thresholds }
    }
}

} // verus!
