//! Dispatcher semantics, the per-transport adapters, and the bootstrap
//! scenarios, exercised end to end on concrete values.

use littled::adapters::{handle_grpc_request, handle_http_request, handle_socket_request};
use littled::bootstrap::{init_gateway, resolve_alias};
use littled::command::Command;
use littled::dispatch::{execute, get_info_payload, encode_info, CommandProcessor, GatewayState};

fn gateway(alias: &str, node_id: &str) -> CommandProcessor {
    init_gateway(String::from(alias), String::from(node_id))
}

#[test]
fn stop_is_deterministic_regardless_of_prior_state() {
    for status in ["", "started", "stopped"] {
        let mut state = GatewayState {
            alias: String::from("a"),
            node_id: String::from("k"),
            status: String::from(status),
        };
        let r = execute(&mut state, &Command::Stop);
        assert_eq!(r.status, "stopped");
        assert_eq!(r.message, "Stopped");
        assert_eq!(state.status, "stopped");
    }
}

#[test]
fn getinfo_reports_the_bootstrap_identity_after_any_commands() {
    let mut p = gateway("brave-falcon", "02abcdef");
    p.process_command(&Command::Start { name: Some(String::from("w")) });
    p.process_command(&Command::Stop);
    p.process_command(&Command::Start { name: None });
    let r = p.process_command(&Command::GetInfo);
    assert_eq!(r.status, "info");
    assert_eq!(r.message, "{alias:\"brave-falcon\", public_key:\"02abcdef\"}");
}

#[test]
fn execute_never_touches_identity_fields() {
    let mut p = gateway("a1", "k1");
    p.process_command(&Command::Start { name: None });
    assert_eq!(p.state.alias, "a1");
    assert_eq!(p.state.node_id, "k1");
    p.process_command(&Command::Stop);
    assert_eq!(p.state.alias, "a1");
    assert_eq!(p.state.node_id, "k1");
}

#[test]
fn start_over_the_socket_returns_the_named_message() {
    let mut p = gateway("a", "k");
    let out = handle_socket_request(
        &mut p,
        "{\"command\":\"start\",\"arguments\":[\"wallet-1\"]}",
    );
    assert_eq!(
        out,
        "{\"status\":\"started\",\"message\":\"Started with name: wallet-1\"}"
    );
}

#[test]
fn start_without_a_name_uses_the_default_placeholder() {
    let mut p = gateway("a", "k");
    let out = handle_socket_request(&mut p, "{\"command\":\"start\",\"arguments\":[]}");
    assert_eq!(
        out,
        "{\"status\":\"started\",\"message\":\"Started with name: default\"}"
    );
}

#[test]
fn socket_decode_error_is_answered_not_fatal() {
    let mut p = gateway("a", "k");
    let out = handle_socket_request(&mut p, "garbage");
    assert_eq!(
        out,
        "{\"status\":\"error\",\"message\":\"Malformed command: garbage\"}"
    );
    // the adapter keeps serving: the next request still works
    let out = handle_socket_request(&mut p, "{\"command\":\"stop\"}");
    assert_eq!(out, "{\"status\":\"stopped\",\"message\":\"Stopped\"}");
}

#[test]
fn http_unknown_command_is_a_client_error_never_a_server_error() {
    let mut p = gateway("a", "k");
    let (code, body) = handle_http_request(&mut p, "{\"command\": \"frobnicate\"}");
    assert_eq!(code, 400);
    assert_eq!(
        body,
        "{\"status\":\"error\",\"message\":\"Unknown command: frobnicate\"}"
    );
}

#[test]
fn http_success_is_200_with_the_encoded_response() {
    let mut p = gateway("a", "k");
    let (code, body) = handle_http_request(&mut p, "{\"command\":\"stop\"}");
    assert_eq!(code, 200);
    assert_eq!(body, "{\"status\":\"stopped\",\"message\":\"Stopped\"}");
}

#[test]
fn grpc_decode_failure_surfaces_as_invalid_argument_message() {
    let mut p = gateway("a", "k");
    let r = handle_grpc_request(&mut p, "{\"command\":\"frobnicate\"}");
    assert_eq!(
        r,
        Err(String::from("Invalid command: {\"command\":\"frobnicate\"}"))
    );
}

#[test]
fn cross_transport_getinfo_yields_the_same_identity_everywhere() {
    let payload = "{\"command\":\"getinfo\"}";

    let mut p1 = gateway("brave-falcon", "02abcdef");
    let socket_out = handle_socket_request(&mut p1, payload);

    let mut p2 = gateway("brave-falcon", "02abcdef");
    let grpc_out = handle_grpc_request(&mut p2, payload).unwrap();

    let mut p3 = gateway("brave-falcon", "02abcdef");
    let (http_code, http_out) = handle_http_request(&mut p3, payload);

    assert_eq!(grpc_out.status, "info");
    assert_eq!(grpc_out.message, "{alias:\"brave-falcon\", public_key:\"02abcdef\"}");
    assert_eq!(http_code, 200);
    assert_eq!(http_out, socket_out);
    assert_eq!(
        socket_out,
        "{\"status\":\"info\",\"message\":\"{alias:\\\"brave-falcon\\\", public_key:\\\"02abcdef\\\"}\"}"
    );
}

#[test]
fn bootstrap_generates_and_persists_when_no_alias_is_stored() {
    let (alias, must_write) = resolve_alias(None, String::from("brave-falcon"));
    assert_eq!(alias, "brave-falcon");
    assert!(must_write);

    let mut p = init_gateway(alias, String::from("02abcdef"));
    let r = handle_grpc_request(&mut p, "{\"command\":\"getinfo\"}").unwrap();
    assert_eq!(r.status, "info");
    assert_eq!(r.message, "{alias:\"brave-falcon\", public_key:\"02abcdef\"}");
}

#[test]
fn bootstrap_keeps_a_stored_alias() {
    let (alias, must_write) =
        resolve_alias(Some(String::from("old-owl")), String::from("brave-falcon"));
    assert_eq!(alias, "old-owl");
    assert!(!must_write);
}

#[test]
fn info_payload_matches_the_getinfo_message() {
    let mut p = gateway("a\"b", "k\\x");
    let payload = get_info_payload(&p.state);
    assert_eq!(payload.alias, "a\"b");
    assert_eq!(payload.public_key, "k\\x");
    let serialized = encode_info(&payload);
    let r = p.process_command(&Command::GetInfo);
    assert_eq!(serialized, r.message);
    assert_eq!(serialized, "{alias:\"a\\\"b\", public_key:\"k\\\\x\"}");
}
