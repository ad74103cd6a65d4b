//! The canonical command model: the transport-independent representation of
//! an administrative command, its response, and the decode error taxonomy.

use vstd::prelude::*;

verus! {

/// A command accepted by the gateway, independent of any transport.
///
/// The set of variants is closed: a wire payload that maps to none of them is
/// a decode failure, never a default variant.
#[derive(Debug, Clone, PartialEq, Eq)]
pub enum Command {
    Start { name: Option<String> },
    Stop,
    GetInfo,
}

/// The mathematical view of a `Command`: names become character sequences.
pub enum CommandV {
    Start { name: Option<Seq<char>> },
    Stop,
    GetInfo,
}

impl View for Command {
    type V = CommandV;

    open spec fn view(&self) -> CommandV {
        match self {
            Command::Start { name: Some(n) } => CommandV::Start { name: Some(n@) },
            Command::Start { name: None } => CommandV::Start { name: None },
            Command::Stop => CommandV::Stop,
            Command::GetInfo => CommandV::GetInfo,
        }
    }
}

/// The uniform response shape every transport returns: a status drawn from a
/// small closed vocabulary (`started`, `stopped`, `info`, `error`) and a
/// human-readable or serialized message.
#[derive(Debug, Clone, PartialEq, Eq)]
pub struct CommandResponse {
    pub status: String,
    pub message: String,
}

/// The mathematical view of a `CommandResponse`.
pub struct ResponseV {
    pub status: Seq<char>,
    pub message: Seq<char>,
}

impl View for CommandResponse {
    type V = ResponseV;

    open spec fn view(&self) -> ResponseV {
        ResponseV { status: self.status@, message: self.message@ }
    }
}

/// The identity payload answered to `GetInfo`: the gateway's alias and the
/// managed node's public key, as fixed at bootstrap.
#[derive(Debug, Clone, PartialEq, Eq)]
pub struct GetInfoResponse {
    pub alias: String,
    pub public_key: String,
}

/// The mathematical view of a `GetInfoResponse`.
pub struct GetInfoV {
    pub alias: Seq<char>,
    pub public_key: Seq<char>,
}

impl View for GetInfoResponse {
    type V = GetInfoV;

    open spec fn view(&self) -> GetInfoV {
        GetInfoV { alias: self.alias@, public_key: self.public_key@ }
    }
}

/// Why a wire payload failed to decode.
///
/// `UnknownCommand` is the structurally well-formed payload whose command
/// name maps to no variant; `MalformedCommand` is every other failure, and
/// carries the offending raw input.
#[derive(Debug, Clone, PartialEq, Eq)]
pub enum DecodeError {
    MalformedCommand { raw: String },
    UnknownCommand { name: String },
}

/// The mathematical view of a `DecodeError`.
pub enum DecodeErrorV {
    MalformedCommand { raw: Seq<char> },
    UnknownCommand { name: Seq<char> },
}

impl View for DecodeError {
    type V = DecodeErrorV;

    open spec fn view(&self) -> DecodeErrorV {
        match self {
            DecodeError::MalformedCommand { raw } => DecodeErrorV::MalformedCommand { raw: raw@ },
            DecodeError::UnknownCommand { name } => DecodeErrorV::UnknownCommand { name: name@ },
        }
    }
}

/// What a decoder found in a wire payload: a command, a well-formed payload
/// with an unrecognized command name, or a payload with no well-formed shape.
pub enum DecodedV {
    Cmd(CommandV),
    Unknown(Seq<char>),
    Malformed,
}

} // verus!
