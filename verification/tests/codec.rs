use stock_monitor::decode::{parse_envelope, process_message};
use stock_monitor::types::SubscribeMessage;

fn bytes(s: &str) -> Vec<u8> {
    s.as_bytes().to_vec()
}

#[test]
fn subscribe_frame_is_plain_json() {
    let msg = SubscribeMessage {
        msg_type: String::from("subscribe"),
        symbol: String::from("AAPL"),
    };
    let frame = msg.to_json();
    assert_eq!(frame, bytes("{\"type\":\"subscribe\",\"symbol\":\"AAPL\"}"));
}

#[test]
fn subscribe_frame_escapes_quotes_and_backslashes() {
    let msg = SubscribeMessage {
        msg_type: String::from("subscribe"),
        symbol: String::from("A\"B\\C"),
    };
    let frame = msg.to_json();
    assert_eq!(
        frame,
        bytes("{\"type\":\"subscribe\",\"symbol\":\"A\\\"B\\\\C\"}")
    );
}

#[test]
fn subscribe_frame_escapes_control_bytes() {
    let msg = SubscribeMessage {
        msg_type: String::from("subscribe"),
        symbol: String::from("A\nB"),
    };
    let frame = msg.to_json();
    assert_eq!(
        frame,
        bytes("{\"type\":\"subscribe\",\"symbol\":\"A\\u000aB\"}")
    );
}

#[test]
fn trade_envelope_decodes_to_samples() {
    let frame = bytes(
        "{\"type\":\"trade\",\"data\":[{\"s\":\"AAPL\",\"p\":150.25,\"t\":1700000000000,\"v\":100}]}",
    );
    let samples = process_message(&frame, 42);
    assert_eq!(samples.len(), 1);
    assert_eq!(samples[0].symbol, bytes("AAPL"));
    assert_eq!(samples[0].price, bytes("150.25"));
    assert_eq!(samples[0].volume, bytes("100"));
    assert_eq!(samples[0].timestamp_ms, 1700000000000);
}

#[test]
fn member_order_and_unknown_members_do_not_matter() {
    let frame = bytes(
        "{\"data\":[{\"v\":7,\"extra\":[1,{\"x\":null},true],\"t\":1700000000000,\"p\":1.5,\"s\":\"MSFT\"}],\"other\":\"zz\",\"type\":\"trade\"}",
    );
    let samples = process_message(&frame, 42);
    assert_eq!(samples.len(), 1);
    assert_eq!(samples[0].symbol, bytes("MSFT"));
    assert_eq!(samples[0].price, bytes("1.5"));
    assert_eq!(samples[0].volume, bytes("7"));
    assert_eq!(samples[0].timestamp_ms, 1700000000000);
}

#[test]
fn several_records_keep_their_order() {
    let frame = bytes(
        "{\"type\":\"trade\",\"data\":[{\"s\":\"A\",\"p\":1,\"t\":1,\"v\":1},{\"s\":\"B\",\"p\":2,\"t\":2,\"v\":2}]}",
    );
    let samples = process_message(&frame, 42);
    assert_eq!(samples.len(), 2);
    assert_eq!(samples[0].symbol, bytes("A"));
    assert_eq!(samples[1].symbol, bytes("B"));
}

#[test]
fn malformed_frames_yield_zero_samples() {
    for text in [
        "",
        "not json",
        "{",
        "{\"type\":\"trade\"}",
        "{\"data\":[]}",
        "{\"type\":\"trade\",\"data\":[{\"s\":\"A\",\"p\":1,\"t\":1}]}",
        "{\"type\":\"trade\",\"data\":[{\"s\":\"A\",\"p\":01,\"t\":1,\"v\":1}]}",
        "{\"type\":\"trade\",\"data\":{}}",
        "{\"type\":\"trade\",\"type\":\"trade\",\"data\":[]}",
        "{\"type\":\"trade\",\"data\":[]} trailing",
        "{\"type\":5,\"data\":[]}",
    ] {
        let frame = bytes(text);
        assert!(parse_envelope(&frame).is_none(), "accepted: {text}");
        assert_eq!(process_message(&frame, 42).len(), 0, "samples from: {text}");
    }
}

#[test]
fn irrelevant_type_yields_zero_samples() {
    let frame = bytes("{\"type\":\"ping\",\"data\":[]}");
    assert!(parse_envelope(&frame).is_some());
    assert_eq!(process_message(&frame, 42).len(), 0);
}

#[test]
fn empty_data_array_yields_zero_samples() {
    let frame = bytes("{\"type\":\"trade\",\"data\":[]}");
    assert!(parse_envelope(&frame).is_some());
    assert_eq!(process_message(&frame, 42).len(), 0);
}

#[test]
fn out_of_range_timestamp_falls_back_to_receipt_time() {
    let frame = bytes(
        "{\"type\":\"trade\",\"data\":[{\"s\":\"AAPL\",\"p\":1,\"t\":9000000000000000,\"v\":1}]}",
    );
    let samples = process_message(&frame, 42);
    assert_eq!(samples.len(), 1);
    assert_eq!(samples[0].timestamp_ms, 42);
}

#[test]
fn fractional_timestamp_falls_back_to_receipt_time() {
    let frame =
        bytes("{\"type\":\"trade\",\"data\":[{\"s\":\"AAPL\",\"p\":1,\"t\":15.5,\"v\":1}]}");
    let samples = process_message(&frame, 42);
    assert_eq!(samples.len(), 1);
    assert_eq!(samples[0].timestamp_ms, 42);
}

#[test]
fn huge_timestamp_token_falls_back_to_receipt_time() {
    let frame = bytes(
        "{\"type\":\"trade\",\"data\":[{\"s\":\"AAPL\",\"p\":1,\"t\":1234567890123456789012345,\"v\":1}]}",
    );
    let samples = process_message(&frame, 42);
    assert_eq!(samples.len(), 1);
    assert_eq!(samples[0].timestamp_ms, 42);
}

#[test]
fn negative_timestamp_in_range_is_kept() {
    let frame =
        bytes("{\"type\":\"trade\",\"data\":[{\"s\":\"AAPL\",\"p\":1,\"t\":-1000,\"v\":1}]}");
    let samples = process_message(&frame, 42);
    assert_eq!(samples.len(), 1);
    assert_eq!(samples[0].timestamp_ms, -1000);
}

#[test]
fn string_escapes_are_decoded() {
    let frame = bytes(
        "{\"type\":\"trade\",\"data\":[{\"s\":\"A\\\"B\\\\C\\u0041\\n\",\"p\":1,\"t\":1,\"v\":1}]}",
    );
    let samples = process_message(&frame, 42);
    assert_eq!(samples.len(), 1);
    assert_eq!(samples[0].symbol, bytes("A\"B\\CA\n"));
}

#[test]
fn unicode_escape_above_ascii_becomes_utf8() {
    let frame =
        bytes("{\"type\":\"trade\",\"data\":[{\"s\":\"\\u00e9\",\"p\":1,\"t\":1,\"v\":1}]}");
    let samples = process_message(&frame, 42);
    assert_eq!(samples.len(), 1);
    assert_eq!(samples[0].symbol, "é".as_bytes().to_vec());
}

#[test]
fn whitespace_around_tokens_is_accepted() {
    let frame = bytes(
        " { \"type\" : \"trade\" , \"data\" : [ { \"s\" : \"X\" , \"p\" : 2e3 , \"t\" : 5 , \"v\" : 0.5 } ] } ",
    );
    let samples = process_message(&frame, 42);
    assert_eq!(samples.len(), 1);
    assert_eq!(samples[0].price, bytes("2e3"));
    assert_eq!(samples[0].volume, bytes("0.5"));
    assert_eq!(samples[0].timestamp_ms, 5);
}
