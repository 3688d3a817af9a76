//! A trading agent's core: the order book of one market, rebuilt from a
//! snapshot and a stream of deltas, and the decisions of one position on
//! that book.
//!
//! - [`decimal`]: prices and sizes as exact fixed-point numbers.
//! - [`json`]: JSON documents as plain values, parsed by `serde_json`.
//! - [`feed`]: the frames of the feed and the subscribe request.
//! - [`order_book`]: the table of price levels, its best bid and best ask.
//! - [`trade_logic`]: the rules of a position, and a session's steps.
//! - [`trade`]: the durable record of a trade and what each action does to it.
//! - [`book_laws`], [`trade_laws`]: what holds of every book, position and
//!   session.
//! - [`error`]: why a frame was refused.
//!
//! Nothing in this library reads a clock, a socket or a store: a caller
//! feeds it text frames and carries out the actions it hands back.

pub mod book_laws;
pub mod decimal;
pub mod error;
pub mod feed;
pub mod json;
pub mod order_book;
pub mod trade;
pub mod trade_laws;
pub mod trade_logic;
