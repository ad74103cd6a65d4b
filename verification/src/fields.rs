//! The direct-fields wire encoding used by the typed RPC schema: a command
//! name plus a string-to-string argument map, carried as explicit message
//! fields rather than structured text.

use vstd::prelude::*;

use crate::chars::to_chars;
use crate::command::{Command, CommandV, DecodedV, DecodeError};
use crate::textcodec::{is_kw, keyword_eq, lemma_kw_self};

verus! {

/// A command as the typed RPC schema carries it: the command name and a
/// list of named string arguments.
#[derive(Debug, Clone, PartialEq, Eq)]
pub struct FieldsRequest {
    pub command: String,
    pub arguments: Vec<(String, String)>,
}

/// The mathematical view of a `FieldsRequest`.
pub struct FieldsV {
    pub command: Seq<char>,
    pub arguments: Seq<(Seq<char>, Seq<char>)>,
}

impl View for FieldsRequest {
    type V = FieldsV;

    open spec fn view(&self) -> FieldsV {
        FieldsV {
            command: self.command@,
            arguments: self.arguments@.map_values(|p: (String, String)| (p.0@, p.1@)),
        }
    }
}

/// The value of the first argument named `key`, if any.
pub open spec fn first_named(args: Seq<(Seq<char>, Seq<char>)>, key: Seq<char>) -> Option<
    Seq<char>,
>
    decreases args.len(),
{
    if args.len() == 0 {
        None
    } else if args[0].0 == key {
        Some(args[0].1)
    } else {
        first_named(args.skip(1), key)
    }
}

/// What the fields decoder yields: the command name is matched
/// ASCII-case-insensitively, `start` takes its name from the `name`
/// argument, and the arguments of `stop` and `getinfo` are ignored for
/// forward compatibility.  A fields request is never malformed: every field
/// is already a string.
pub open spec fn dec_fields(f: FieldsV) -> DecodedV {
    if is_kw(f.command, "start"@) {
        DecodedV::Cmd(CommandV::Start { name: first_named(f.arguments, "name"@) })
    } else if is_kw(f.command, "stop"@) {
        DecodedV::Cmd(CommandV::Stop)
    } else if is_kw(f.command, "getinfo"@) {
        DecodedV::Cmd(CommandV::GetInfo)
    } else {
        DecodedV::Unknown(f.command)
    }
}

/// The canonical fields encoding of a command.
pub open spec fn enc_fields(c: CommandV) -> FieldsV {
    match c {
        CommandV::Start { name: Some(n) } => FieldsV {
            command: "start"@,
            arguments: seq![("name"@, n)],
        },
        CommandV::Start { name: None } => FieldsV { command: "start"@, arguments: Seq::empty() },
        CommandV::Stop => FieldsV { command: "stop"@, arguments: Seq::empty() },
        CommandV::GetInfo => FieldsV { command: "getinfo"@, arguments: Seq::empty() },
    }
}

/// Encodes a command in the canonical fields form.
pub fn encode_fields(c: &Command) -> (r: FieldsRequest)
    ensures
        r@ == enc_fields(c@),
{
    match c {
        Command::Start { name: Some(n) } => {
            let mut arguments: Vec<(String, String)> = Vec::new();
            arguments.push((String::from_str("name"), n.clone()));
            let r = FieldsRequest { command: String::from_str("start"), arguments };
            proof {
                assert(r@.arguments =~= seq![("name"@, n@)]);
            }
            r
        },
        Command::Start { name: None } => {
            let r = FieldsRequest { command: String::from_str("start"), arguments: Vec::new() };
            proof {
                assert(r@.arguments =~= Seq::<(Seq<char>, Seq<char>)>::empty());
            }
            r
        },
        Command::Stop => {
            let r = FieldsRequest { command: String::from_str("stop"), arguments: Vec::new() };
            proof {
                assert(r@.arguments =~= Seq::<(Seq<char>, Seq<char>)>::empty());
            }
            r
        },
        Command::GetInfo => {
            let r = FieldsRequest { command: String::from_str("getinfo"), arguments: Vec::new() };
            proof {
                assert(r@.arguments =~= Seq::<(Seq<char>, Seq<char>)>::empty());
            }
            r
        },
    }
}

/// Decodes a fields request; succeeds exactly when [`dec_fields`] recognizes
/// the command name, and yields `UnknownCommand` carrying that name
/// otherwise.
pub fn decode_fields(f: &FieldsRequest) -> (r: Result<Command, DecodeError>)
    ensures
        match dec_fields(f@) {
            DecodedV::Cmd(c) => r matches Ok(cmd) && cmd@ == c,
            DecodedV::Unknown(n) => r matches Err(DecodeError::UnknownCommand { name }) && name@
                == n,
            DecodedV::Malformed => false,
        },
{
    let word = to_chars(f.command.as_str());
    if keyword_eq(&word, "start") {
        let name = find_named(&f.arguments, "name");
        Ok(Command::Start { name })
    } else if keyword_eq(&word, "stop") {
        Ok(Command::Stop)
    } else if keyword_eq(&word, "getinfo") {
        Ok(Command::GetInfo)
    } else {
        Err(DecodeError::UnknownCommand { name: f.command.clone() })
    }
}

/// The value of the first argument whose key equals `key`, if any.
fn find_named(args: &Vec<(String, String)>, key: &str) -> (r: Option<String>)
    ensures
        (match r {
            Some(v) => first_named(
                args@.map_values(|p: (String, String)| (p.0@, p.1@)),
                key@,
            ) == Some(v@),
            None => first_named(
                args@.map_values(|p: (String, String)| (p.0@, p.1@)),
                key@,
            ) is None,
        }),
{
    let ghost a = args@.map_values(|p: (String, String)| (p.0@, p.1@));
    let key_string = String::from_str(key);
    let mut i: usize = 0;
    assert(a.skip(0) =~= a);
    while i < args.len()
        invariant
            i <= args@.len(),
            a == args@.map_values(|p: (String, String)| (p.0@, p.1@)),
            key_string@ == key@,
            first_named(a, key@) == first_named(a.skip(i as int), key@),
        decreases args@.len() - i,
    {
        let pair = &args[i];
        assert(a.skip(i as int)[0] == a[i as int]);
        assert(a[i as int] == (args@[i as int].0@, args@[i as int].1@));
        if pair.0 == key_string {
            assert(first_named(a.skip(i as int), key@) == Some(a[i as int].1));
            return Some(pair.1.clone());
        }
        assert(a.skip(i as int).skip(1) =~= a.skip(i + 1));
        i = i + 1;
    }
    assert(a.skip(i as int).len() == 0);
    None
}

/// The fields encoding is lossless: decoding the canonical fields encoding
/// of any command yields exactly that command.
pub proof fn lemma_fields_round_trip(c: CommandV)
    ensures
        dec_fields(enc_fields(c)) == DecodedV::Cmd(c),
{
    reveal_strlit("start");
    reveal_strlit("stop");
    reveal_strlit("getinfo");
    reveal_strlit("name");
    lemma_kw_self();
    match c {
        CommandV::Start { name: Some(n) } => {
            let args = seq![("name"@, n)];
            assert(first_named(args, "name"@) == Some(n));
        },
        CommandV::Start { name: None } => {
            assert(first_named(Seq::<(Seq<char>, Seq<char>)>::empty(), "name"@) is None);
        },
        CommandV::Stop => {
            assert(!is_kw("stop"@, "start"@));
        },
        CommandV::GetInfo => {
            assert(!is_kw("getinfo"@, "start"@));
            assert(!is_kw("getinfo"@, "stop"@));
        },
    }
}

} // verus!
