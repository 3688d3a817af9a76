use poloniex_bot::error::DecodeError;
use poloniex_bot::feed::{decode_message, parse_message, Command, PoloniexMessage, HEARTBEAT_ID};
use poloniex_bot::json::Json;

#[test]
fn heartbeat_has_no_fields() {
    let frame = parse_message("[1010]".to_string()).unwrap();
    assert_eq!(
        frame,
        PoloniexMessage { channel_id: HEARTBEAT_ID, sequence_num: None, messages: vec![] }
    );
}

#[test]
fn heartbeat_is_known_by_its_id_alone() {
    let frame = parse_message("[1010, 7, [[\"o\", 1, \"1\", \"1\"]]]".to_string()).unwrap();
    assert_eq!(frame.channel_id, 1010);
    assert_eq!(frame.sequence_num, None);
    assert!(frame.messages.is_empty());
}

#[test]
fn batch_keeps_its_sub_messages() {
    let text = "[148, 531883, [[\"o\", 1, \"101\", \"0.5\", \"1580123594000\"], [\"t\", \"1\"]]]";
    let frame = parse_message(text.to_string()).unwrap();
    assert_eq!(frame.channel_id, 148);
    assert_eq!(frame.sequence_num, Some(531883));
    assert_eq!(
        frame.messages,
        vec![
            Json::Array(vec![
                Json::Text("o".to_string()),
                Json::Number(Some(1)),
                Json::Text("101".to_string()),
                Json::Text("0.5".to_string()),
                Json::Text("1580123594000".to_string()),
            ]),
            Json::Array(vec![Json::Text("t".to_string()), Json::Text("1".to_string())]),
        ]
    );
}

#[test]
fn text_that_is_not_json_is_refused() {
    assert_eq!(parse_message("".to_string()), Err(DecodeError::NotJson));
    assert_eq!(parse_message("[148, 1, [".to_string()), Err(DecodeError::NotJson));
    assert_eq!(parse_message("hello".to_string()), Err(DecodeError::NotJson));
}

#[test]
fn documents_of_another_shape_are_refused() {
    for text in [
        "{}",
        "null",
        "[]",
        "[\"148\", 1, []]",
        "[148]",
        "[148, 1]",
        "[148, 1, [], 4]",
        "[148, \"1\", []]",
        "[148, 1, {}]",
        "[-1, 1, []]",
        "[4294967296, 1, []]",
        "[148, 1.5, []]",
    ] {
        assert_eq!(parse_message(text.to_string()), Err(DecodeError::BadShape), "{}", text);
    }
}

#[test]
fn decode_takes_a_document() {
    let json = Json::Array(vec![
        Json::Number(Some(5)),
        Json::Number(Some(6)),
        Json::Array(vec![Json::Null]),
    ]);
    assert_eq!(
        decode_message(json),
        Ok(PoloniexMessage { channel_id: 5, sequence_num: Some(6), messages: vec![Json::Null] })
    );
    assert_eq!(decode_message(Json::Bool(true)), Err(DecodeError::BadShape));
}

#[test]
fn subscribe_names_the_market() {
    let command = Command::subscribe("USDT", "LTC");
    assert_eq!(command.command, "subscribe");
    assert_eq!(command.channel, "USDT_LTC");
}
