//! What holds of every position and every session: the target of an open
//! position only rises, a finished position stays as it is, and the channel
//! of a session, once locked, is never changed.

use vstd::prelude::*;
use crate::decimal::differs;
use crate::error::DecodeError;
use crate::json::Json;
use crate::feed::HEARTBEAT_ID;
use crate::order_book::Levels;
use crate::trade::{position_of, recorded, TradeView};
use crate::trade_logic::{
    batch_step, best_prices, book_step, command_tag, frame_step, is_live, locked_channel,
    message_step, overshoots, position_step, spread_too_wide, ActionView, Phase, PositionView,
    SessionView, Thresholds,
};

verus! {

/// The target of an open position never falls, and an open position stays
/// open or closes.
pub proof fn lemma_open_target_never_falls(
    position: PositionView,
    bid: Option<nat>,
    ask: Option<nat>,
    thresholds: Thresholds,
)
    requires
        position.phase == Phase::Open,
    ensures
        position_step(position, bid, ask, thresholds).0.target >= position.target,
        position_step(position, bid, ask, thresholds).0.phase == Phase::Open || position_step(
            position,
            bid,
            ask,
            thresholds,
        ).0.phase == Phase::Closed,
        position_step(position, bid, ask, thresholds).0.open_price == position.open_price,
{
}

/// A closed or rejected position never changes and calls for nothing.
pub proof fn lemma_finished_stays(
    position: PositionView,
    bid: Option<nat>,
    ask: Option<nat>,
    thresholds: Thresholds,
)
    requires
        !is_live(position.phase),
    ensures
        position_step(position, bid, ask, thresholds) == (position, ActionView::Wait),
{
}

/// A position that awaits entry and is rejected keeps every field but its
/// phase: no fill is recorded.
pub proof fn lemma_rejected_has_no_fill(
    position: PositionView,
    bid: nat,
    ask: nat,
    thresholds: Thresholds,
)
    requires
        position.phase == Phase::AwaitingEntry,
        bid < position.target || overshoots(bid, position.target, thresholds.start_above_target),
    ensures
        position_step(position, Some(bid), Some(ask), thresholds).1 == ActionView::Reject,
        position_step(position, Some(bid), Some(ask), thresholds).0 == (PositionView {
            phase: Phase::Rejected,
            ..position
        }),
{
}

/// An exit is put off while the spread is too wide: the position stays open
/// with its target, and the checkpoint is refreshed with the best bid.
pub proof fn lemma_wide_spread_defers_exit(
    position: PositionView,
    bid: nat,
    ask: nat,
    thresholds: Thresholds,
)
    requires
        position.phase == Phase::Open,
        position.highest_bid_seen matches Some(seen) && differs(seen, bid),
        bid < position.target,
        spread_too_wide(bid, ask, thresholds.max_spread),
    ensures
        position_step(position, Some(bid), Some(ask), thresholds).1 == (ActionView::Checkpoint {
            highest_bid: bid,
            target: position.target,
        }),
        position_step(position, Some(bid), Some(ask), thresholds).0 == (PositionView {
            highest_bid_seen: Some(bid),
            ..position
        }),
{
}

/// Through a whole batch the channel, the thresholds and the fill price of
/// an open position stay as they are, and the target of an open position
/// does not fall.
pub proof fn lemma_batch_keeps(session: SessionView, msgs: Seq<Json>)
    requires
        batch_step(session, msgs).0 is Ok,
    ensures
        batch_step(session, msgs).0->Ok_0.channel_id == session.channel_id,
        batch_step(session, msgs).0->Ok_0.thresholds == session.thresholds,
        session.position.phase == Phase::Open ==> batch_step(session, msgs).0->Ok_0.position.target
            >= session.position.target && batch_step(session, msgs).0->Ok_0.position.open_price
            == session.position.open_price,
        !is_live(session.position.phase) ==> batch_step(session, msgs).0->Ok_0 == session,
    decreases msgs.len(),
{
    if msgs.len() > 0 && is_live(session.position.phase) {
        let (next, action) = message_step(session, msgs[0])->Ok_0;
        lemma_batch_keeps(next, msgs.drop_first());
        let book = book_step(session.book, msgs[0])->Ok_0;
        let prices = best_prices(book);
        if session.position.phase == Phase::Open {
            lemma_open_target_never_falls(
                session.position,
                prices.0,
                prices.1,
                session.thresholds,
            );
        }
    }
}

/// Once a sub-message closes or rejects the position, the rest of its batch
/// is left alone: the session stands as that sub-message left it, and its
/// action is the last.
pub proof fn lemma_batch_stops_when_finished(session: SessionView, msgs: Seq<Json>)
    requires
        msgs.len() > 0,
        is_live(session.position.phase),
        message_step(session, msgs[0]) matches Ok(step) && !is_live(step.0.position.phase),
    ensures
        batch_step(session, msgs) == (
            Ok::<SessionView, DecodeError>(message_step(session, msgs[0])->Ok_0.0),
            seq![message_step(session, msgs[0])->Ok_0.1],
        ),
{
    reveal_with_fuel(batch_step, 2);
    let action = message_step(session, msgs[0])->Ok_0.1;
    assert(seq![action] + Seq::<ActionView>::empty() =~= seq![action]);
}

/// Once a session is locked to a channel, no frame changes the channel.
pub proof fn lemma_channel_stays_locked(session: SessionView, channel_id: u32, msgs: Seq<Json>)
    requires
        session.channel_id is Some,
        frame_step(session, channel_id, msgs).0 is Ok,
    ensures
        frame_step(session, channel_id, msgs).0->Ok_0.channel_id == session.channel_id,
{
    if session.channel_id == Some(channel_id) {
        lemma_batch_keeps(session, msgs);
    }
}

/// A session is never locked to the heartbeat channel by a frame.
pub proof fn lemma_never_locked_to_heartbeat(session: SessionView, channel_id: u32, msgs: Seq<Json>)
    requires
        session.channel_id != Some(HEARTBEAT_ID),
        frame_step(session, channel_id, msgs).0 is Ok,
    ensures
        frame_step(session, channel_id, msgs).0->Ok_0.channel_id != Some(HEARTBEAT_ID),
{
    let locked = locked_channel(session.channel_id, channel_id);
    let listening = SessionView {
        channel_id: locked,
        book: session.book,
        position: session.position,
        thresholds: session.thresholds,
    };
    if locked == Some(channel_id) {
        lemma_batch_keeps(listening, msgs);
    }
}

/// A heartbeat, which carries no messages, changes nothing and calls for
/// nothing.
pub proof fn lemma_heartbeat_changes_nothing(session: SessionView)
    ensures
        frame_step(session, HEARTBEAT_ID, Seq::empty()) == (
            Ok::<SessionView, DecodeError>(session),
            Seq::<ActionView>::empty(),
        ),
{
}

/// A frame on another channel than the locked one changes nothing and calls
/// for nothing.
pub proof fn lemma_other_channel_is_passed_over(
    session: SessionView,
    channel_id: u32,
    msgs: Seq<Json>,
)
    requires
        session.channel_id matches Some(locked) && locked != channel_id,
    ensures
        frame_step(session, channel_id, msgs) == (
            Ok::<SessionView, DecodeError>(session),
            Seq::<ActionView>::empty(),
        ),
{
}

/// Until a snapshot comes there is no book: whatever else a sub-message
/// holds, an absent book stays absent.
pub proof fn lemma_no_book_before_snapshot(msg: Json)
    requires
        command_tag(msg) != Some("i"@),
        book_step(None, msg) is Ok,
    ensures
        book_step(None, msg) == Ok::<Option<Levels>, DecodeError>(None),
{
}

/// The record keeps up with the position. Whatever step a position that was
/// taken up from a record makes, the action of that step deletes the record
/// exactly when the position is rejected; otherwise the record, taken up
/// anew, gives the phase, the target and the fill prices of the position
/// after the step, and after a checkpoint the best bid seen as well.
pub proof fn lemma_record_follows_position(
    trade: TradeView,
    bid: Option<nat>,
    ask: Option<nat>,
    thresholds: Thresholds,
    now: i64,
)
    requires
        trade.close_at is Some <==> trade.close_price is Some,
    ensures
        ({
            let stepped = position_step(position_of(trade), bid, ask, thresholds);
            match recorded(trade, stepped.1, now) {
                None => stepped.0.phase == Phase::Rejected,
                Some(next) => {
                    &&& stepped.0.phase != Phase::Rejected
                    &&& position_of(next).phase == stepped.0.phase
                    &&& position_of(next).target == stepped.0.target
                    &&& position_of(next).open_price == stepped.0.open_price
                    &&& position_of(next).close_price == stepped.0.close_price
                    &&& (stepped.1 is Checkpoint || stepped.1 is Wait ==> position_of(next)
                        == stepped.0)
                    &&& (next.close_at is Some <==> next.close_price is Some)
                },
            }
        }),
{
}

} // verus!
