use poloniex_bot::decimal::Decimal;
use poloniex_bot::order_book::{OrderBookEntry, OrderBookMiddle, OrderType};
use poloniex_bot::trade::Trade;
use poloniex_bot::trade_logic::{Action, Phase, Position, Thresholds};

fn dec(text: &str) -> Decimal {
    Decimal::parse(text).unwrap()
}

fn fresh() -> Trade {
    Trade {
        id: 7,
        base: "USDT".to_string(),
        quote: "LTC".to_string(),
        open_at: 1_000,
        close_at: None,
        open_average: dec("100.5"),
        target: dec("100"),
        open_price: None,
        close_price: None,
        highest_bid_seen: None,
        updated_at: 1_000,
    }
}

fn middle(bid: &str, ask: &str) -> OrderBookMiddle {
    OrderBookMiddle {
        highest_bid: Some(OrderBookEntry {
            order_type: OrderType::Bid,
            size: dec("1"),
            price: dec(bid),
        }),
        lowest_ask: Some(OrderBookEntry {
            order_type: OrderType::Ask,
            size: dec("1"),
            price: dec(ask),
        }),
    }
}

#[test]
fn record_awaits_entry_until_it_has_a_fill() {
    assert_eq!(fresh().position(), Position::awaiting(dec("100")));
    let open = Trade { open_price: Some(dec("101.2")), highest_bid_seen: Some(dec("101")), ..fresh() };
    assert_eq!(
        open.position(),
        Position::resume(dec("100"), Some(dec("101.2")), Some(dec("101")))
    );
    assert_eq!(open.position().phase, Phase::Open);
    let closed = Trade { close_at: Some(5_000), close_price: Some(dec("108")), ..open };
    assert_eq!(closed.position().phase, Phase::Closed);
    assert_eq!(closed.position().close_price, Some(dec("108")));
}

#[test]
fn waiting_leaves_the_record() {
    assert_eq!(fresh().record(&Action::Wait, 2_000), Some(fresh()));
}

#[test]
fn rejection_deletes_the_record() {
    assert_eq!(fresh().record(&Action::Reject, 2_000), None);
}

#[test]
fn entry_sets_fill_time_and_target() {
    let action = Action::Enter { open_price: dec("101.2"), target: dec("100.694") };
    assert_eq!(
        fresh().record(&action, 2_000),
        Some(Trade {
            open_price: Some(dec("101.2")),
            open_at: 2_000,
            target: dec("100.694"),
            ..fresh()
        })
    );
}

#[test]
fn checkpoint_sets_bid_time_and_target() {
    let open = Trade { open_price: Some(dec("101.2")), target: dec("100.694"), ..fresh() };
    let action = Action::Checkpoint { highest_bid: dec("110"), target: dec("109.45") };
    assert_eq!(
        open.record(&action, 3_000),
        Some(Trade {
            open_price: Some(dec("101.2")),
            highest_bid_seen: Some(dec("110")),
            updated_at: 3_000,
            target: dec("109.45"),
            ..fresh()
        })
    );
}

#[test]
fn exit_sets_price_and_time() {
    let open = Trade { open_price: Some(dec("101.2")), target: dec("109.45"), ..fresh() };
    let action = Action::Exit { close_price: dec("108") };
    assert_eq!(
        open.record(&action, 4_000),
        Some(Trade {
            open_price: Some(dec("101.2")),
            target: dec("109.45"),
            close_price: Some(dec("108")),
            close_at: Some(4_000),
            ..fresh()
        })
    );
}

#[test]
fn record_keeps_up_with_the_position() {
    let t = Thresholds::default();
    let mut trade = fresh();
    let mut position = trade.position();
    for (bid, ask, now) in [
        ("101", "101.2", 2_000),
        ("110", "110.2", 3_000),
        ("108", "109", 4_000),
        ("107", "107.1", 5_000),
    ] {
        let (next, action) = position.step(&middle(bid, ask), &t);
        trade = trade.record(&action, now).unwrap();
        position = next;
        assert_eq!(trade.position().phase, position.phase);
        assert_eq!(trade.position().target, position.target);
        assert_eq!(trade.position().open_price, position.open_price);
        assert_eq!(trade.position().close_price, position.close_price);
    }
    assert_eq!(position.phase, Phase::Closed);
    assert_eq!(trade.close_price, Some(dec("107")));
    assert_eq!(trade.close_at, Some(5_000));
    assert_eq!(trade.open_at, 2_000);
    assert_eq!(trade.updated_at, 4_000);
    assert_eq!(trade.highest_bid_seen, Some(dec("108")));
    assert_eq!(trade.target, dec("109.45"));
}
