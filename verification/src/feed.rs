//! Frames of the feed: the subscribe request that opens a channel, and the
//! decoding of what comes back.

use vstd::prelude::*;
use vstd::string::StringExecFns;
use crate::error::DecodeError;
use crate::json::{parsed_json, Json};

verus! {

/// The reserved channel id of a heartbeat frame.
pub const HEARTBEAT_ID: u32 = 1010;

/// One frame: a heartbeat, which has the reserved channel id, no sequence
/// number and no messages, or a batch of sub-messages on a channel.
///
/// The sequence number is decoded and handed on. Whether it follows on the
/// one before is not looked at: a gap in the feed goes unnoticed here.
#[derive(Debug, PartialEq, Eq)]
pub struct PoloniexMessage {
    pub channel_id: u32,
    pub sequence_num: Option<u32>,
    pub messages: Vec<Json>,
}

/// A request to the feed.
#[derive(Debug, PartialEq, Eq)]
pub struct Command {
    pub command: String,
    pub channel: String,
}

impl Command {
    /// The request that subscribes to the market of `quote` against `base`:
    /// the command `subscribe` on the channel `<base>_<quote>`.
    pub fn subscribe(base: &str, quote: &str) -> (r: Command)
        ensures
            r.command@ == "subscribe"@,
            r.channel@ == base@ + "_"@ + quote@,
    {
        let mut channel = String::from_str(base);
        channel.append("_");
        channel.append(quote);
        Command { command: String::from_str("subscribe"), channel }
    }
}

/// The channel id that a frame starts with.
pub open spec fn frame_channel(json: Json) -> Option<u32> {
    match json.spec_items() {
        Some(items) => if items.len() >= 1 {
            items[0].spec_as_u32()
        } else {
            None
        },
        None => None,
    }
}

/// Channel id, sequence number and sub-messages of a data frame
/// `[channel, sequence, [sub-message, ..]]`.
pub open spec fn batch_of(json: Json) -> Option<(u32, u32, Seq<Json>)> {
    match json.spec_items() {
        Some(items) => if items.len() == 3 {
            match (items[0].spec_as_u32(), items[1].spec_as_u32(), items[2].spec_items()) {
                (Some(channel), Some(sequence), Some(messages)) => Some(
                    (channel, sequence, messages),
                ),
                _ => None,
            }
        } else {
            None
        },
        None => None,
    }
}

/// A frame as plain values.
pub struct FrameView {
    pub channel_id: u32,
    pub sequence_num: Option<u32>,
    pub messages: Seq<Json>,
}

impl View for PoloniexMessage {
    type V = FrameView;

    open spec fn view(&self) -> FrameView {
        FrameView {
            channel_id: self.channel_id,
            sequence_num: self.sequence_num,
            messages: self.messages@,
        }
    }
}

/// The frame that the document `json` is.
///
/// An array that starts with the heartbeat id is a heartbeat, whatever
/// follows. Any other document is a batch if it is an array of exactly a
/// channel id, a sequence number and an array of sub-messages, and is refused
/// otherwise.
pub open spec fn frame_of(json: Json) -> Result<FrameView, DecodeError> {
    if frame_channel(json) == Some(HEARTBEAT_ID) {
        Ok(FrameView { channel_id: HEARTBEAT_ID, sequence_num: None, messages: Seq::empty() })
    } else {
        match batch_of(json) {
            Some((channel, sequence, messages)) => Ok(
                FrameView { channel_id: channel, sequence_num: Some(sequence), messages },
            ),
            None => Err(DecodeError::BadShape),
        }
    }
}

/// The frame that the text `text` is: it has to be JSON, and the document a
/// frame.
pub open spec fn text_frame(text: Seq<char>) -> Result<FrameView, DecodeError> {
    match parsed_json(text) {
        Some(json) => frame_of(json),
        None => Err(DecodeError::NotJson),
    }
}

/// The frame inside the result of decoding.
pub open spec fn message_view(r: Result<PoloniexMessage, DecodeError>) -> Result<
    FrameView,
    DecodeError,
> {
    match r {
        Ok(m) => Ok(m@),
        Err(e) => Err(e),
    }
}

/// Decodes a document as a frame.
pub fn decode_message(json: Json) -> (r: Result<PoloniexMessage, DecodeError>)
    ensures
        message_view(r) == frame_of(json),
{
    let mut items = match json {
        Json::Array(items) => items,
        _ => { return Err(DecodeError::BadShape); },
    };
    if items.len() == 0 {
        return Err(DecodeError::BadShape);
    }
    let channel_id: u32 = match items[0].as_u32() {
        Some(id) => id,
        None => { return Err(DecodeError::BadShape); },
    };
    if channel_id == HEARTBEAT_ID {
        return Ok(PoloniexMessage { channel_id, sequence_num: None, messages: Vec::new() });
    }
    if items.len() != 3 {
        return Err(DecodeError::BadShape);
    }
    let sequence_num: u32 = match items[1].as_u32() {
        Some(n) => n,
        None => { return Err(DecodeError::BadShape); },
    };
    match items.pop() {
        Some(Json::Array(messages)) => Ok(
            PoloniexMessage { channel_id, sequence_num: Some(sequence_num), messages },
        ),
        _ => Err(DecodeError::BadShape),
    }
}

/// Decodes one text frame of the feed. A text that is not JSON, and a
/// document that is not a frame, are refused.
pub fn parse_message(input: String) -> (r: Result<PoloniexMessage, DecodeError>)
    ensures
        message_view(r) == text_frame(input@),
{
    match Json::parse(input.as_str()) {
        Some(json) => decode_message(json),
        None => Err(DecodeError::NotJson),
    }
}

} // verus!
