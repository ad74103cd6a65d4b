//! The transport-facing half of each adapter, on plain values: decode the
//! wire payload, execute under the processor's exclusive access, and encode
//! the outcome in the transport's native error shape.  The listening,
//! reading and writing around these functions is transport plumbing and
//! lives outside the library.

use vstd::prelude::*;

use crate::command::{CommandResponse, CommandV, DecodedV, DecodeError, ResponseV};
use crate::dispatch::{next_state, response_of, CommandProcessor, StateV};
use crate::textcodec::{dec_text, enc_resp, encode_response};

verus! {

/// The error message for a well-formed payload with an unrecognized command.
pub open spec fn unknown_msg(name: Seq<char>) -> Seq<char> {
    "Unknown command: "@ + name
}

/// The error message for a payload with no well-formed shape.
pub open spec fn malformed_msg(raw: Seq<char>) -> Seq<char> {
    "Malformed command: "@ + raw
}

/// The error message a gRPC caller receives with its `InvalidArgument`
/// status when its payload does not decode.
pub open spec fn invalid_arg_msg(raw: Seq<char>) -> Seq<char> {
    "Invalid command: "@ + raw
}

/// The response a structured-text request yields: the dispatcher's response
/// for a decoded command, an `error`-status response otherwise.
pub open spec fn text_resp(st: StateV, input: Seq<char>) -> ResponseV {
    match dec_text(input) {
        DecodedV::Cmd(c) => response_of(st, c),
        DecodedV::Unknown(n) => ResponseV { status: "error"@, message: unknown_msg(n) },
        DecodedV::Malformed => ResponseV { status: "error"@, message: malformed_msg(input) },
    }
}

/// The state a structured-text request leaves behind: only a decoded command
/// touches the state.
pub open spec fn text_next(st: StateV, input: Seq<char>) -> StateV {
    match dec_text(input) {
        DecodedV::Cmd(c) => next_state(st, c),
        DecodedV::Unknown(n) => st,
        DecodedV::Malformed => st,
    }
}

/// What the gRPC adapter answers: the dispatcher's response on success, or
/// the `InvalidArgument` message a failed decode surfaces as.
pub open spec fn grpc_resp(st: StateV, input: Seq<char>) -> Option<ResponseV> {
    match dec_text(input) {
        DecodedV::Cmd(c) => Some(response_of(st, c)),
        DecodedV::Unknown(n) => None,
        DecodedV::Malformed => None,
    }
}

/// The HTTP status code for a request body: decode failure is always the
/// caller's error, never the server's — 400, never a 5xx.
pub open spec fn http_code(input: Seq<char>) -> u16 {
    match dec_text(input) {
        DecodedV::Cmd(c) => 200u16,
        DecodedV::Unknown(n) => 400u16,
        DecodedV::Malformed => 400u16,
    }
}

/// Serves one Unix-socket exchange: one structured-text request line in, one
/// encoded response out.  A payload that does not decode is answered with an
/// `error`-status response on that connection alone; the state is untouched.
pub fn handle_socket_request(p: &mut CommandProcessor, line: &str) -> (out: String)
    ensures
        final(p)@ == text_next(old(p)@, line@),
        out@ == enc_resp(text_resp(old(p)@, line@)),
{
    let resp = match crate::textcodec::decode_command(line) {
        Ok(cmd) => p.process_command(&cmd),
        Err(DecodeError::UnknownCommand { name }) => {
            let mut message = String::from_str("Unknown command: ");
            message.append(name.as_str());
            CommandResponse { status: String::from_str("error"), message }
        },
        Err(DecodeError::MalformedCommand { raw }) => {
            let mut message = String::from_str("Malformed command: ");
            message.append(raw.as_str());
            CommandResponse { status: String::from_str("error"), message }
        },
    };
    encode_response(&resp)
}

/// Serves one gRPC call: the structured-text payload carried in the request's
/// command field in, either the dispatcher's response or the message for an
/// `InvalidArgument` status out.
pub fn handle_grpc_request(p: &mut CommandProcessor, payload: &str) -> (r: Result<
    CommandResponse,
    String,
>)
    ensures
        final(p)@ == text_next(old(p)@, payload@),
        (match grpc_resp(old(p)@, payload@) {
            Some(resp) => r matches Ok(cr) && cr@ == resp,
            None => r matches Err(m) && m@ == invalid_arg_msg(payload@),
        }),
{
    match crate::textcodec::decode_command(payload) {
        Ok(cmd) => Ok(p.process_command(&cmd)),
        Err(_) => {
            let mut message = String::from_str("Invalid command: ");
            message.append(payload);
            Err(message)
        },
    }
}

/// Serves one HTTP exchange: the JSON-shaped request body in, a status code
/// and an encoded response body out.  Success is 200; a body that does not
/// decode is 400 — a caller error is never reported as a server error.
pub fn handle_http_request(p: &mut CommandProcessor, body: &str) -> (r: (u16, String))
    ensures
        final(p)@ == text_next(old(p)@, body@),
        r.0 == http_code(body@),
        r.1@ == enc_resp(text_resp(old(p)@, body@)),
        r.0 == 200 || r.0 == 400,
{
    let out = handle_socket_request(p, body);
    let code: u16 = match crate::textcodec::decode_command(body) {
        Ok(_) => 200,
        Err(_) => 400,
    };
    (code, out)
}

/// Whatever a structured-text request held, the answered status stays inside
/// the closed vocabulary: decode failures answer `error`, never a word of
/// their own.
pub proof fn lemma_adapter_status_vocabulary(st: StateV, input: Seq<char>)
    ensures
        crate::dispatch::valid_status(text_resp(st, input).status),
{
    if let DecodedV::Cmd(c) = dec_text(input) {
        crate::dispatch::lemma_status_vocabulary(st, c);
    }
}

/// Cross-transport equivalence: payloads that decode to `GetInfo` on the
/// socket, the gRPC endpoint and the HTTP endpoint are all answered with the
/// same response against the same state — in particular the same serialized
/// alias and public key.
pub proof fn lemma_cross_transport_equivalence(
    st: StateV,
    socket_line: Seq<char>,
    grpc_payload: Seq<char>,
    http_body: Seq<char>,
)
    requires
        dec_text(socket_line) == DecodedV::Cmd(CommandV::GetInfo),
        dec_text(grpc_payload) == DecodedV::Cmd(CommandV::GetInfo),
        dec_text(http_body) == DecodedV::Cmd(CommandV::GetInfo),
    ensures
        text_resp(st, socket_line) == response_of(st, CommandV::GetInfo),
        grpc_resp(st, grpc_payload) == Some(response_of(st, CommandV::GetInfo)),
        text_resp(st, http_body) == text_resp(st, socket_line),
        http_code(http_body) == 200,
        text_resp(st, socket_line).message == crate::dispatch::info_message(
            st.alias,
            st.node_id,
        ),
{
}

} // verus!
