use poloniex_bot::decimal::Decimal;
use poloniex_bot::error::DecodeError;
use poloniex_bot::feed::{parse_message, PoloniexMessage};
use poloniex_bot::json::Json;
use poloniex_bot::order_book::{OrderBookEntry, OrderBookMiddle, OrderType};
use poloniex_bot::trade_logic::{
    check_sell, check_start, do_batch, do_buy, do_message, is_overshoot, is_wide_spread,
    next_book, on_frame, on_text, target_after, Action, Phase, Position, Session, Thresholds, MAX_SPREAD,
    START_ABOVE_TARGET, STOP_LOSS,
};

fn dec(text: &str) -> Decimal {
    Decimal::parse(text).unwrap()
}

fn middle(bid: Option<&str>, ask: Option<&str>) -> OrderBookMiddle {
    OrderBookMiddle {
        highest_bid: bid.map(|p| OrderBookEntry {
            order_type: OrderType::Bid,
            size: dec("1"),
            price: dec(p),
        }),
        lowest_ask: ask.map(|p| OrderBookEntry {
            order_type: OrderType::Ask,
            size: dec("1"),
            price: dec(p),
        }),
    }
}

fn open_position(target: &str, open_price: &str, seen: &str) -> Position {
    Position::resume(dec(target), Some(dec(open_price)), Some(dec(seen)))
}

fn frame(text: &str) -> PoloniexMessage {
    parse_message(text.to_string()).unwrap()
}

const SNAPSHOT: &str = "[148, 1, [[\"i\", {\"currencyPair\": \"USDT_LTC\", \"orderBook\": [{\"101.2\": \"1\"}, {\"101\": \"2\"}]}]]]";

#[test]
fn thresholds_have_their_defaults() {
    let t = Thresholds::default();
    assert_eq!(t.stop_loss, 5_000);
    assert_eq!(t.start_above_target, 15_000);
    assert_eq!(t.max_spread, 2_500);
    assert_eq!((STOP_LOSS, START_ABOVE_TARGET, MAX_SPREAD), (5_000, 15_000, 2_500));
}

#[test]
fn entry_scenario() {
    let t = Thresholds::default();
    let position = Position::awaiting(dec("100"));
    let (after, action) = check_start(position, dec("101"), dec("101.2"), &t);
    assert_eq!(action, Action::Enter { open_price: dec("101.2"), target: dec("100.694") });
    assert_eq!(
        after,
        Position {
            phase: Phase::Open,
            target: dec("100.694"),
            open_price: Some(dec("101.2")),
            close_price: None,
            highest_bid_seen: Some(dec("101")),
        }
    );
}

#[test]
fn rejection_scenario() {
    let t = Thresholds::default();
    let position = Position::awaiting(dec("100"));
    let (after, action) = check_start(position, dec("98"), dec("98.1"), &t);
    assert_eq!(action, Action::Reject);
    assert_eq!(
        after,
        Position {
            phase: Phase::Rejected,
            target: dec("100"),
            open_price: None,
            close_price: None,
            highest_bid_seen: None,
        }
    );
}

#[test]
fn overshoot_is_rejected() {
    let t = Thresholds::default();
    let position = Position::awaiting(dec("100"));
    let (after, action) = check_start(position, dec("101.500000000001"), dec("101.6"), &t);
    assert_eq!(action, Action::Reject);
    assert_eq!(after.phase, Phase::Rejected);
    assert_eq!(after.open_price, None);
    let (after, action) = check_start(position, dec("101.5"), dec("101.6"), &t);
    assert_eq!(action, Action::Enter { open_price: dec("101.6"), target: dec("101.092") });
    assert_eq!(after.phase, Phase::Open);
}

#[test]
fn wide_spread_defers_entry() {
    let t = Thresholds::default();
    let position = Position::awaiting(dec("100"));
    let (after, action) = check_start(position, dec("100"), dec("100.26"), &t);
    assert_eq!(action, Action::Wait);
    assert_eq!(after, position);
    let (after, action) = check_start(position, dec("100"), dec("100.25"), &t);
    assert_eq!(action, Action::Enter { open_price: dec("100.25"), target: dec("99.74875") });
    assert_eq!(after.highest_bid_seen, Some(dec("100")));
}

#[test]
fn ratchet_scenario() {
    let t = Thresholds::default();
    let position = open_position("100.694", "101.2", "101");
    let (raised, action) = position.step(&middle(Some("110"), Some("110.2")), &t);
    assert_eq!(action, Action::Checkpoint { highest_bid: dec("110"), target: dec("109.45") });
    assert_eq!(raised.phase, Phase::Open);
    assert_eq!(raised.target, dec("109.45"));
    assert_eq!(raised.highest_bid_seen, Some(dec("110")));
    assert_eq!(raised.open_price, Some(dec("101.2")));

    let (closed, action) = raised.step(&middle(Some("108"), Some("108.2")), &t);
    assert_eq!(action, Action::Exit { close_price: dec("108") });
    assert_eq!(
        closed,
        Position {
            phase: Phase::Closed,
            target: dec("109.45"),
            open_price: Some(dec("101.2")),
            close_price: Some(dec("108")),
            highest_bid_seen: Some(dec("108")),
        }
    );
}

#[test]
fn deferred_exit_scenario() {
    let t = Thresholds::default();
    let position = open_position("109.45", "101.2", "110");
    let (after, action) = position.step(&middle(Some("108"), Some("108.5")), &t);
    assert_eq!(action, Action::Checkpoint { highest_bid: dec("108"), target: dec("109.45") });
    assert_eq!(
        after,
        Position {
            phase: Phase::Open,
            target: dec("109.45"),
            open_price: Some(dec("101.2")),
            close_price: None,
            highest_bid_seen: Some(dec("108")),
        }
    );
    let (same, action) = after.step(&middle(Some("108"), Some("108.1")), &t);
    assert_eq!(action, Action::Wait);
    assert_eq!(same, after);
}

#[test]
fn target_never_falls_while_open() {
    let t = Thresholds::default();
    let position = open_position("109.45", "101.2", "110");
    let (after, action) = check_sell(position, dec("109.5"), dec("109.6"), &t);
    assert_eq!(action, Action::Checkpoint { highest_bid: dec("109.5"), target: dec("109.45") });
    assert_eq!(after.target, dec("109.45"));
    assert_eq!(after.highest_bid_seen, Some(dec("109.5")));
    let (after, _) = check_sell(after, dec("120"), dec("120.1"), &t);
    assert_eq!(after.target, dec("119.4"));
}

#[test]
fn open_position_waits_for_a_new_bid() {
    let t = Thresholds::default();
    let position = open_position("100.694", "101.2", "101");
    let (after, action) = position.step(&middle(Some("101.0000000001"), Some("101.2")), &t);
    assert_eq!(action, Action::Wait);
    assert_eq!(after, position);
    let unseen = Position::resume(dec("100.694"), Some(dec("101.2")), None);
    assert_eq!(unseen.phase, Phase::Open);
    let (after, action) = unseen.step(&middle(Some("50"), Some("50.1")), &t);
    assert_eq!(action, Action::Wait);
    assert_eq!(after, unseen);
}

#[test]
fn step_needs_both_sides() {
    let t = Thresholds::default();
    let position = Position::awaiting(dec("100"));
    for m in [middle(None, None), middle(Some("98"), None), middle(None, Some("98"))] {
        let (after, action) = position.step(&m, &t);
        assert_eq!(action, Action::Wait);
        assert_eq!(after, position);
    }
}

#[test]
fn finished_position_stays() {
    let t = Thresholds::default();
    let (closed, _) = check_sell(open_position("109.45", "101.2", "110"), dec("108"), dec("108.1"), &t);
    assert!(!closed.is_live());
    let (after, action) = closed.step(&middle(Some("200"), Some("200.1")), &t);
    assert_eq!(action, Action::Wait);
    assert_eq!(after, closed);
    let (rejected, _) = check_start(Position::awaiting(dec("100")), dec("98"), dec("98.1"), &t);
    assert!(!rejected.is_live());
    let (after, action) = rejected.step(&middle(Some("100"), Some("100.1")), &t);
    assert_eq!(action, Action::Wait);
    assert_eq!(after, rejected);
    assert!(Position::awaiting(dec("1")).is_live());
}

#[test]
fn ratios_are_compared_exactly() {
    assert!(!is_overshoot(&dec("101.5"), &dec("100"), 15_000));
    assert!(is_overshoot(&dec("101.500000000001"), &dec("100"), 15_000));
    assert!(!is_overshoot(&dec("99"), &dec("100"), 0));
    assert!(is_overshoot(&dec("1"), &dec("0"), 15_000));
    assert!(!is_overshoot(&dec("0"), &dec("0"), 15_000));
    assert!(!is_wide_spread(&dec("101"), &dec("101.2"), 2_500));
    assert!(is_wide_spread(&dec("100"), &dec("100.250000000001"), 2_500));
    assert!(!is_wide_spread(&dec("100"), &dec("99"), 0));
    assert!(is_wide_spread(&dec("0"), &dec("1"), u32::MAX));
    assert!(!is_wide_spread(
        &dec("10000000000000000"),
        &dec("10000000000000000"),
        u32::MAX
    ));
    assert!(is_overshoot(&dec("10000000000000000"), &dec("1"), u32::MAX));
}

#[test]
fn target_follows_the_stop_loss() {
    let t = Thresholds::default();
    assert_eq!(target_after(&dec("101.2"), &t), dec("100.694"));
    assert_eq!(target_after(&dec("110"), &t), dec("109.45"));
    let all = Thresholds { stop_loss: 1_000_000, ..t };
    assert_eq!(target_after(&dec("110"), &all), dec("0"));
    let more = Thresholds { stop_loss: 2_000_000, ..t };
    assert_eq!(target_after(&dec("110"), &more), dec("0"));
    let none = Thresholds { stop_loss: 0, ..t };
    assert_eq!(target_after(&dec("110"), &none), dec("110"));
    let (after, action) = do_buy(Position::awaiting(dec("100")), dec("101.2"), &t);
    assert_eq!(action, Action::Enter { open_price: dec("101.2"), target: dec("100.694") });
    assert_eq!(after.phase, Phase::Open);
    assert_eq!(after.highest_bid_seen, None);
}

#[test]
fn sub_message_brings_the_book_up_to_date() {
    let snapshot = Json::parse(
        "[\"i\", {\"currencyPair\": \"USDT_LTC\", \"orderBook\": [{\"101.2\": \"1\"}, {\"101\": \"2\"}]}]",
    )
    .unwrap();
    let book = next_book(None, &snapshot).unwrap().unwrap();
    assert_eq!(book.len(), 2);
    let delta = Json::parse("[\"o\", 1, \"101.1\", \"3\", \"1580123594000\"]").unwrap();
    let book = next_book(Some(book), &delta).unwrap().unwrap();
    assert_eq!(book.len(), 3);
    let trade = Json::parse("[\"t\", \"1\", 1, \"101.1\", \"3\", 1580123594]").unwrap();
    let book = next_book(Some(book), &trade).unwrap().unwrap();
    assert_eq!(book.len(), 3);
    assert!(next_book(None, &delta).unwrap().is_none());
    assert!(next_book(None, &trade).unwrap().is_none());
    for text in ["[]", "[1]", "null", "[\"i\"]", "[\"i\", 1]", "[\"o\", 1]"] {
        let msg = Json::parse(text).unwrap();
        assert_eq!(next_book(None, &msg).err(), Some(DecodeError::BadShape), "{}", text);
    }
}

#[test]
fn session_enters_on_the_snapshot() {
    let session = Session::start(Position::awaiting(dec("100")), Thresholds::default());
    let (session, actions) = on_frame(session, &frame(SNAPSHOT));
    let session = session.unwrap();
    assert_eq!(actions, vec![Action::Enter { open_price: dec("101.2"), target: dec("100.694") }]);
    assert_eq!(session.channel_id, Some(148));
    assert_eq!(session.position.phase, Phase::Open);
    assert_eq!(session.position.highest_bid_seen, Some(dec("101")));
    assert_eq!(session.order_book.as_ref().map(|b| b.len()), Some(2));
}

#[test]
fn session_ratchets_and_exits() {
    let session = Session::start(Position::awaiting(dec("100")), Thresholds::default());
    let (session, _) = on_frame(session, &frame(SNAPSHOT));
    let text = "[148, 2, [[\"o\", 1, \"110\", \"1\", \"1\"], [\"o\", 0, \"101.2\", \"0\", \"2\"], [\"o\", 0, \"110.1\", \"1\", \"3\"]]]";
    let (session, actions) = on_frame(session.unwrap(), &frame(text));
    let session = session.unwrap();
    assert_eq!(
        actions,
        vec![
            Action::Checkpoint { highest_bid: dec("110"), target: dec("109.45") },
            Action::Wait,
            Action::Wait,
        ]
    );
    assert_eq!(session.position.target, dec("109.45"));

    let text = "[148, 3, [[\"o\", 1, \"108\", \"1\", \"4\"], [\"o\", 0, \"108.2\", \"1\", \"5\"], [\"o\", 1, \"110\", \"0\", \"6\"], [\"o\", 1, \"120\", \"1\", \"7\"]]]";
    let (session, actions) = on_frame(session, &frame(text));
    let session = session.unwrap();
    assert_eq!(
        actions,
        vec![Action::Wait, Action::Wait, Action::Exit { close_price: dec("108") }]
    );
    assert_eq!(session.position.phase, Phase::Closed);
    assert_eq!(session.position.close_price, Some(dec("108")));
    assert_eq!(session.order_book.as_ref().map(|b| b.get(&"120".to_string())), Some(None));
}

#[test]
fn session_rejects_and_stops() {
    let session = Session::start(Position::awaiting(dec("102")), Thresholds::default());
    let text = "[148, 1, [[\"i\", {\"currencyPair\": \"USDT_LTC\", \"orderBook\": [{\"101.2\": \"1\"}, {\"101\": \"2\"}]}], [\"o\", 1, \"102\", \"1\", \"1\"]]]";
    let (session, actions) = on_frame(session, &frame(text));
    let session = session.unwrap();
    assert_eq!(actions, vec![Action::Reject]);
    assert_eq!(session.position.phase, Phase::Rejected);
    assert_eq!(session.position.open_price, None);
    let (session, actions) = on_frame(session, &frame("[148, 2, [[\"o\", 1, \"102\", \"1\", \"1\"]]]"));
    assert_eq!(actions, vec![]);
    assert_eq!(session.unwrap().position.phase, Phase::Rejected);
}

#[test]
fn session_locks_its_channel() {
    let session = Session::start(Position::awaiting(dec("100")), Thresholds::default());
    let (session, actions) = on_frame(session, &frame("[1010]"));
    let session = session.unwrap();
    assert_eq!(actions, vec![]);
    assert_eq!(session.channel_id, None);

    let (session, _) = on_frame(session, &frame("[148, 1, []]"));
    let session = session.unwrap();
    assert_eq!(session.channel_id, Some(148));

    let other = SNAPSHOT.replace("[148,", "[149,");
    let (session, actions) = on_frame(session, &frame(&other));
    let session = session.unwrap();
    assert_eq!(actions, vec![]);
    assert_eq!(session.channel_id, Some(148));
    assert!(session.order_book.is_none());
    assert_eq!(session.position, Position::awaiting(dec("100")));

    let (session, actions) = on_frame(session, &frame("[1010]"));
    let session = session.unwrap();
    assert_eq!(actions, vec![]);
    assert_eq!(session.channel_id, Some(148));
}

#[test]
fn session_drops_deltas_before_the_snapshot() {
    let session = Session::start(Position::awaiting(dec("100")), Thresholds::default());
    let text = "[148, 1, [[\"o\", 1, \"101\", \"2\", \"1\"], [\"o\", 0, \"101.2\", \"1\", \"2\"]]]";
    let (session, actions) = on_frame(session, &frame(text));
    let session = session.unwrap();
    assert_eq!(actions, vec![Action::Wait, Action::Wait]);
    assert!(session.order_book.is_none());
    assert_eq!(session.position.phase, Phase::AwaitingEntry);
}

#[test]
fn session_ends_on_a_bad_sub_message() {
    let session = Session::start(Position::awaiting(dec("100")), Thresholds::default());
    let text = "[148, 1, [[\"i\", {\"currencyPair\": \"USDT_LTC\", \"orderBook\": [{\"101.2\": \"1\"}, {\"101\": \"2\"}]}], [\"o\", 1, \"x\", \"1\", \"1\"], [\"o\", 1, \"101\", \"0\", \"1\"]]]";
    let (session, actions) = on_frame(session, &frame(text));
    assert_eq!(session.err(), Some(DecodeError::BadDecimal));
    assert_eq!(actions, vec![Action::Enter { open_price: dec("101.2"), target: dec("100.694") }]);

    let session = Session::start(Position::awaiting(dec("100")), Thresholds::default());
    let (session, actions) = do_batch(session, &vec![Json::Null]);
    assert_eq!(session.err(), Some(DecodeError::BadShape));
    assert_eq!(actions, vec![]);
}

#[test]
fn message_step_gives_one_action() {
    let session = Session::start(open_position("100.694", "101.2", "101"), Thresholds::default());
    let snapshot = Json::parse(
        "[\"i\", {\"currencyPair\": \"USDT_LTC\", \"orderBook\": [{\"100.3\": \"1\"}, {\"100.2\": \"2\"}]}]",
    )
    .unwrap();
    let (session, action) = do_message(session, &snapshot).unwrap();
    assert_eq!(action, Action::Exit { close_price: dec("100.2") });
    assert_eq!(session.position.phase, Phase::Closed);
    assert_eq!(do_message(session, &Json::Null).err(), Some(DecodeError::BadShape));
}

#[test]
fn text_frame_goes_through_the_session() {
    let session = Session::start(Position::awaiting(dec("100")), Thresholds::default());
    let (session, actions) = on_text(session, SNAPSHOT.to_string());
    let session = session.unwrap();
    assert_eq!(actions, vec![Action::Enter { open_price: dec("101.2"), target: dec("100.694") }]);
    assert_eq!(session.channel_id, Some(148));

    let (session, actions) = on_text(session, "[1010]".to_string());
    let session = session.unwrap();
    assert_eq!(actions, vec![]);
    assert_eq!(session.position.phase, Phase::Open);

    let (ended, actions) = on_text(session, "[148, 2".to_string());
    assert_eq!(ended.err(), Some(DecodeError::NotJson));
    assert_eq!(actions, vec![]);

    let session = Session::start(Position::awaiting(dec("100")), Thresholds::default());
    let (ended, actions) = on_text(session, "{\"channel\": 148}".to_string());
    assert_eq!(ended.err(), Some(DecodeError::BadShape));
    assert_eq!(actions, vec![]);
}
