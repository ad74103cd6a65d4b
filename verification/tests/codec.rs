//! Round-trip and rejection behaviour of the two wire encodings.

use littled::command::{Command, CommandResponse, DecodeError};
use littled::fields::{decode_fields, encode_fields, FieldsRequest};
use littled::textcodec::{decode_command, decode_response, encode_command, encode_response};

#[test]
fn text_round_trip_start_named() {
    let c = Command::Start { name: Some(String::from("wallet-1")) };
    let wire = encode_command(&c);
    assert_eq!(wire, "{\"command\":\"start\",\"arguments\":[\"wallet-1\"]}");
    assert_eq!(decode_command(&wire), Ok(c));
}

#[test]
fn text_round_trip_start_unnamed() {
    let c = Command::Start { name: None };
    let wire = encode_command(&c);
    assert_eq!(wire, "{\"command\":\"start\",\"arguments\":[]}");
    assert_eq!(decode_command(&wire), Ok(c));
}

#[test]
fn text_round_trip_stop() {
    let c = Command::Stop;
    let wire = encode_command(&c);
    assert_eq!(wire, "{\"command\":\"stop\",\"arguments\":[]}");
    assert_eq!(decode_command(&wire), Ok(c));
}

#[test]
fn text_round_trip_getinfo() {
    let c = Command::GetInfo;
    let wire = encode_command(&c);
    assert_eq!(wire, "{\"command\":\"getinfo\",\"arguments\":[]}");
    assert_eq!(decode_command(&wire), Ok(c));
}

#[test]
fn text_round_trip_name_with_quotes_and_backslashes() {
    let c = Command::Start { name: Some(String::from("a\"b\\c")) };
    let wire = encode_command(&c);
    assert_eq!(wire, "{\"command\":\"start\",\"arguments\":[\"a\\\"b\\\\c\"]}");
    assert_eq!(decode_command(&wire), Ok(c));
}

#[test]
fn text_decode_tolerates_spaces() {
    assert_eq!(
        decode_command("{ \"command\" : \"stop\" , \"arguments\" : [ ] }"),
        Ok(Command::Stop)
    );
    assert_eq!(
        decode_command("{\"command\": \"start\", \"arguments\": [\"n\"]}"),
        Ok(Command::Start { name: Some(String::from("n")) })
    );
}

#[test]
fn text_decode_is_case_insensitive_in_the_command_name() {
    assert_eq!(decode_command("{\"command\":\"STOP\",\"arguments\":[]}"), Ok(Command::Stop));
    assert_eq!(decode_command("{\"command\":\"GeTiNfO\",\"arguments\":[]}"), Ok(Command::GetInfo));
    assert_eq!(
        decode_command("{\"command\":\"Start\",\"arguments\":[]}"),
        Ok(Command::Start { name: None })
    );
}

#[test]
fn text_decode_without_arguments_field() {
    assert_eq!(decode_command("{\"command\":\"stop\"}"), Ok(Command::Stop));
    assert_eq!(decode_command("{\"command\":\"start\"}"), Ok(Command::Start { name: None }));
}

#[test]
fn text_decode_unknown_command_name() {
    assert_eq!(
        decode_command("{\"command\":\"frobnicate\"}"),
        Err(DecodeError::UnknownCommand { name: String::from("frobnicate") })
    );
}

#[test]
fn text_decode_malformed_payloads() {
    let cases = [
        "",
        "stop",
        "{\"command\":\"stop\"",
        "{\"command\":stop}",
        "{\"cmd\":\"stop\"}",
        "{\"command\":\"start\",\"arguments\":[\"a\",\"b\"]}",
    ];
    for raw in cases {
        assert_eq!(
            decode_command(raw),
            Err(DecodeError::MalformedCommand { raw: String::from(raw) }),
            "input: {}",
            raw
        );
    }
}

#[test]
fn text_decode_rejects_argument_on_stop_and_getinfo() {
    let raw = "{\"command\":\"stop\",\"arguments\":[\"x\"]}";
    assert_eq!(
        decode_command(raw),
        Err(DecodeError::MalformedCommand { raw: String::from(raw) })
    );
    let raw = "{\"command\":\"getinfo\",\"arguments\":[\"x\"]}";
    assert_eq!(
        decode_command(raw),
        Err(DecodeError::MalformedCommand { raw: String::from(raw) })
    );
}

#[test]
fn response_round_trip() {
    let r = CommandResponse {
        status: String::from("info"),
        message: String::from("{alias:\"a\", public_key:\"k\"}"),
    };
    let wire = encode_response(&r);
    assert_eq!(
        wire,
        "{\"status\":\"info\",\"message\":\"{alias:\\\"a\\\", public_key:\\\"k\\\"}\"}"
    );
    assert_eq!(decode_response(&wire), Some(r));
}

#[test]
fn response_decode_rejects_malformed() {
    assert_eq!(decode_response("{\"status\":\"ok\"}"), None);
    assert_eq!(decode_response(""), None);
}

#[test]
fn fields_round_trip_all_variants() {
    let cases = [
        Command::Start { name: Some(String::from("wallet-1")) },
        Command::Start { name: None },
        Command::Stop,
        Command::GetInfo,
    ];
    for c in cases {
        let f = encode_fields(&c);
        assert_eq!(decode_fields(&f), Ok(c));
    }
}

#[test]
fn fields_encoding_shape() {
    let f = encode_fields(&Command::Start { name: Some(String::from("n1")) });
    assert_eq!(f.command, "start");
    assert_eq!(f.arguments, vec![(String::from("name"), String::from("n1"))]);
    let f = encode_fields(&Command::Stop);
    assert_eq!(f.command, "stop");
    assert!(f.arguments.is_empty());
}

#[test]
fn fields_decode_unknown_and_case_insensitive() {
    let f = FieldsRequest { command: String::from("STOP"), arguments: vec![] };
    assert_eq!(decode_fields(&f), Ok(Command::Stop));
    let f = FieldsRequest { command: String::from("frobnicate"), arguments: vec![] };
    assert_eq!(
        decode_fields(&f),
        Err(DecodeError::UnknownCommand { name: String::from("frobnicate") })
    );
}

#[test]
fn fields_decode_takes_first_name_argument() {
    let f = FieldsRequest {
        command: String::from("start"),
        arguments: vec![
            (String::from("other"), String::from("x")),
            (String::from("name"), String::from("n1")),
            (String::from("name"), String::from("n2")),
        ],
    };
    assert_eq!(decode_fields(&f), Ok(Command::Start { name: Some(String::from("n1")) }));
}
