//! The durable record of one trade, and what each action does to it.
//!
//! The record is the only thing that outlives a controller: a controller
//! that starts anew takes the position up from it. Nothing here keeps two
//! controllers from acting on one record; that one controller at a time owns
//! a trade is for the caller to see to.

use vstd::prelude::*;
use crate::decimal::Decimal;
use crate::trade_logic::{units_of, Action, ActionView, Phase, Position, PositionView};

verus! {

/// One row of the trade record store. Times are in milliseconds since the
/// epoch; the caller reads the clock.
#[derive(Debug, PartialEq, Eq)]
pub struct Trade {
    pub id: i32,
    pub base: String,
    pub quote: String,
    pub open_at: i64,
    pub close_at: Option<i64>,
    pub open_average: Decimal,
    pub target: Decimal,
    pub open_price: Option<Decimal>,
    pub close_price: Option<Decimal>,
    pub highest_bid_seen: Option<Decimal>,
    pub updated_at: i64,
}

/// A record as plain values.
pub struct TradeView {
    pub id: i32,
    pub base: Seq<char>,
    pub quote: Seq<char>,
    pub open_at: i64,
    pub close_at: Option<i64>,
    pub open_average: nat,
    pub target: nat,
    pub open_price: Option<nat>,
    pub close_price: Option<nat>,
    pub highest_bid_seen: Option<nat>,
    pub updated_at: i64,
}

impl View for Trade {
    type V = TradeView;

    open spec fn view(&self) -> TradeView {
        TradeView {
            id: self.id,
            base: self.base@,
            quote: self.quote@,
            open_at: self.open_at,
            close_at: self.close_at,
            open_average: self.open_average@,
            target: self.target@,
            open_price: units_of(self.open_price),
            close_price: units_of(self.close_price),
            highest_bid_seen: units_of(self.highest_bid_seen),
            updated_at: self.updated_at,
        }
    }
}

/// The record inside the result of an action.
pub open spec fn trade_view(r: Option<Trade>) -> Option<TradeView> {
    match r {
        Some(t) => Some(t@),
        None => None,
    }
}

/// Where a record says its trade stands: closed once it has a closing time,
/// open once it has a fill price, awaiting entry before that. A rejected
/// trade has no record.
pub open spec fn phase_of(trade: TradeView) -> Phase {
    if trade.close_at is Some {
        Phase::Closed
    } else if trade.open_price is Some {
        Phase::Open
    } else {
        Phase::AwaitingEntry
    }
}

/// The position that a controller takes up from a record.
pub open spec fn position_of(trade: TradeView) -> PositionView {
    PositionView {
        phase: phase_of(trade),
        target: trade.target,
        open_price: trade.open_price,
        close_price: trade.close_price,
        highest_bid_seen: trade.highest_bid_seen,
    }
}

/// The record after an action at the time `now`; none where the action
/// deletes it.
///
/// To wait leaves the record as it is. A buy sets the fill price, the
/// opening time and the target. A checkpoint sets the best bid seen, the
/// target and the time of the last update. A sell sets the closing price and
/// the closing time.
pub open spec fn recorded(trade: TradeView, action: ActionView, now: i64) -> Option<TradeView> {
    match action {
        ActionView::Wait => Some(trade),
        ActionView::Reject => None,
        ActionView::Enter { open_price, target } => Some(
            TradeView { open_price: Some(open_price), open_at: now, target, ..trade },
        ),
        ActionView::Checkpoint { highest_bid, target } => Some(
            TradeView { highest_bid_seen: Some(highest_bid), updated_at: now, target, ..trade },
        ),
        ActionView::Exit { close_price } => Some(
            TradeView { close_price: Some(close_price), close_at: Some(now), ..trade },
        ),
    }
}

impl Trade {
    /// The position that a controller takes up from this record.
    pub fn position(&self) -> (r: Position)
        ensures
            r@ == position_of(self@),
    {
        let phase = match (self.close_at, self.open_price) {
            (Some(_), _) => Phase::Closed,
            (None, Some(_)) => Phase::Open,
            (None, None) => Phase::AwaitingEntry,
        };
        Position {
            phase,
            target: self.target,
            open_price: self.open_price,
            close_price: self.close_price,
            highest_bid_seen: self.highest_bid_seen,
        }
    }

    /// The record after an action at the time `now`; none where the action
    /// deletes it.
    pub fn record(&self, action: &Action, now: i64) -> (r: Option<Trade>)
        ensures
            trade_view(r) == recorded(self@, action@, now),
    {
        let mut next = Trade {
            id: self.id,
            base: self.base.clone(),
            quote: self.quote.clone(),
            open_at: self.open_at,
            close_at: self.close_at,
            open_average: self.open_average,
            target: self.target,
            open_price: self.open_price,
            close_price: self.close_price,
            highest_bid_seen: self.highest_bid_seen,
            updated_at: self.updated_at,
        };
        match *action {
            Action::Wait => {},
            Action::Reject => {
                return None;
            },
            Action::Enter { open_price, target } => {
                next.open_price = Some(open_price);
                next.open_at = now;
                next.target = target;
            },
            Action::Checkpoint { highest_bid, target } => {
                next.highest_bid_seen = Some(highest_bid);
                next.updated_at = now;
                next.target = target;
            },
            Action::Exit { close_price } => {
                next.close_price = Some(close_price);
                next.close_at = Some(now);
            },
        }
        Some(next)
    }
}

} // verus!
