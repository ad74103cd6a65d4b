//! The structured-text wire encoding shared by the Unix socket, the gRPC
//! payload, and the HTTP body: a JSON-shaped object
//! `{"command":"<name>","arguments":[...]}` with at most one argument.
//!
//! The decoder tolerates runs of spaces around the punctuation and matches
//! the command name ASCII-case-insensitively; quote and backslash inside a
//! quoted string are escaped with a backslash.  The encoder emits the
//! canonical spacing-free form.

use vstd::prelude::*;

use crate::chars::{append_escaped, chars_to_string, esc, esc1, to_chars};
use crate::command::{Command, CommandResponse, CommandV, DecodedV, DecodeError, ResponseV};

verus! {

/// Drops leading spaces.
pub open spec fn strip_ws(s: Seq<char>) -> Seq<char>
    decreases s.len(),
{
    if s.len() > 0 && s[0] == ' ' {
        strip_ws(s.skip(1))
    } else {
        s
    }
}

/// Strips the exact literal `l` from the front of `s`, if present.
pub open spec fn strip_lit(s: Seq<char>, l: Seq<char>) -> Option<Seq<char>> {
    if l.len() <= s.len() && s.take(l.len() as int) == l {
        Some(s.skip(l.len() as int))
    } else {
        None
    }
}

/// Parses a quoted-string body (the opening quote already consumed): the
/// unescaped content and the suffix after the closing quote.
pub open spec fn pstr(s: Seq<char>) -> Option<(Seq<char>, Seq<char>)>
    decreases s.len(),
{
    if s.len() == 0 {
        None
    } else if s[0] == '"' {
        Some((Seq::empty(), s.skip(1)))
    } else if s[0] == '\\' {
        if s.len() >= 2 && (s[1] == '\\' || s[1] == '"') {
            match pstr(s.skip(2)) {
                Some(p) => Some((seq![s[1]] + p.0, p.1)),
                None => None,
            }
        } else {
            None
        }
    } else {
        match pstr(s.skip(1)) {
            Some(p) => Some((seq![s[0]] + p.0, p.1)),
            None => None,
        }
    }
}

/// The lower-case form of the letters that occur in a command name; any
/// other character stands for itself.
pub open spec fn lower_alpha(c: char) -> char {
    if c == 'A' {
        'a'
    } else if c == 'E' {
        'e'
    } else if c == 'F' {
        'f'
    } else if c == 'G' {
        'g'
    } else if c == 'I' {
        'i'
    } else if c == 'N' {
        'n'
    } else if c == 'O' {
        'o'
    } else if c == 'P' {
        'p'
    } else if c == 'R' {
        'r'
    } else if c == 'S' {
        's'
    } else if c == 'T' {
        't'
    } else {
        c
    }
}

/// ASCII-case-insensitive match of a wire command name `n` against the
/// lower-case keyword `k`.
pub open spec fn is_kw(n: Seq<char>, k: Seq<char>) -> bool {
    n.len() == k.len() && forall|i: int|
        0 <= i < n.len() ==> #[trigger] lower_alpha(n[i]) == k[i]
}

/// Holds when `s` is a closing brace followed by nothing but spaces.
pub open spec fn close_ok(s: Seq<char>) -> bool {
    match strip_lit(strip_ws(s), "}"@) {
        Some(r) => strip_ws(r).len() == 0,
        None => false,
    }
}

/// Parses what follows the command name's closing quote: either the end of
/// the object, or an `"arguments"` array with zero or one quoted string.
/// `None` is a malformed suffix.
pub open spec fn after_name(s: Seq<char>) -> Option<Option<Seq<char>>> {
    if close_ok(s) {
        Some(None)
    } else {
        match strip_lit(strip_ws(s), ","@) {
            None => None,
            Some(t1) => match strip_lit(strip_ws(t1), "\"arguments\""@) {
                None => None,
                Some(t2) => match strip_lit(strip_ws(t2), ":"@) {
                    None => None,
                    Some(t3) => match strip_lit(strip_ws(t3), "["@) {
                        None => None,
                        Some(t4) => match strip_lit(strip_ws(t4), "]"@) {
                            Some(t5) => if close_ok(t5) {
                                Some(None)
                            } else {
                                None
                            },
                            None => match strip_lit(strip_ws(t4), "\""@) {
                                None => None,
                                Some(t6) => match pstr(t6) {
                                    None => None,
                                    Some(p) => match strip_lit(strip_ws(p.1), "]"@) {
                                        None => None,
                                        Some(t7) => if close_ok(t7) {
                                            Some(Some(p.0))
                                        } else {
                                            None
                                        },
                                    },
                                },
                            },
                        },
                    },
                },
            },
        }
    }
}

/// Maps a parsed command name and optional argument to the decode outcome:
/// `start` takes the argument as its name, `stop` and `getinfo` take none,
/// and any other name is unknown.
pub open spec fn interpret(name: Seq<char>, arg: Option<Seq<char>>) -> DecodedV {
    if is_kw(name, "start"@) {
        DecodedV::Cmd(CommandV::Start { name: arg })
    } else if is_kw(name, "stop"@) {
        if arg is Some {
            DecodedV::Malformed
        } else {
            DecodedV::Cmd(CommandV::Stop)
        }
    } else if is_kw(name, "getinfo"@) {
        if arg is Some {
            DecodedV::Malformed
        } else {
            DecodedV::Cmd(CommandV::GetInfo)
        }
    } else {
        DecodedV::Unknown(name)
    }
}

/// What the structured-text decoder yields for a wire payload.
pub open spec fn dec_text(s: Seq<char>) -> DecodedV {
    match strip_lit(strip_ws(s), "{"@) {
        None => DecodedV::Malformed,
        Some(s1) => match strip_lit(strip_ws(s1), "\"command\""@) {
            None => DecodedV::Malformed,
            Some(s2) => match strip_lit(strip_ws(s2), ":"@) {
                None => DecodedV::Malformed,
                Some(s3) => match strip_lit(strip_ws(s3), "\""@) {
                    None => DecodedV::Malformed,
                    Some(s4) => match pstr(s4) {
                        None => DecodedV::Malformed,
                        Some(p) => match after_name(p.1) {
                            None => DecodedV::Malformed,
                            Some(arg) => interpret(p.0, arg),
                        },
                    },
                },
            },
        },
    }
}

/// The canonical structured-text encoding of a command.
pub open spec fn enc_text(c: CommandV) -> Seq<char> {
    match c {
        CommandV::Start { name: Some(n) } => "{\"command\":\"start\",\"arguments\":[\""@ + esc(n)
            + "\"]}"@,
        CommandV::Start { name: None } => "{\"command\":\"start\",\"arguments\":[]}"@,
        CommandV::Stop => "{\"command\":\"stop\",\"arguments\":[]}"@,
        CommandV::GetInfo => "{\"command\":\"getinfo\",\"arguments\":[]}"@,
    }
}

/// Advances past leading spaces.
fn skip_ws_at(v: &Vec<char>, i: usize) -> (j: usize)
    requires
        i <= v@.len(),
    ensures
        i <= j <= v@.len(),
        strip_ws(v@.skip(i as int)) == v@.skip(j as int),
{
    let mut j = i;
    while j < v.len() && v[j] == ' '
        invariant
            i <= j <= v@.len(),
            strip_ws(v@.skip(i as int)) == strip_ws(v@.skip(j as int)),
        decreases v@.len() - j,
    {
        assert(v@.skip(j as int)[0] == v@[j as int]);
        assert(v@.skip(j as int).skip(1) =~= v@.skip(j + 1));
        j = j + 1;
    }
    if j < v.len() {
        assert(v@.skip(j as int)[0] == v@[j as int]);
        assert(strip_ws(v@.skip(j as int)) == v@.skip(j as int));
    } else {
        assert(v@.skip(j as int).len() == 0);
        assert(strip_ws(v@.skip(j as int)) == v@.skip(j as int));
    }
    j
}

/// Matches the literal `l` at position `i`.
fn match_lit_at(v: &Vec<char>, i: usize, l: &str) -> (r: Option<usize>)
    requires
        i <= v@.len(),
    ensures
        match r {
            Some(j) => i <= j <= v@.len() && strip_lit(v@.skip(i as int), l@) == Some(
                v@.skip(j as int),
            ),
            None => strip_lit(v@.skip(i as int), l@) is None,
        },
{
    let m = l.unicode_len();
    let n = v.len();
    if n - i < m {
        assert(v@.skip(i as int).len() < l@.len());
        return None;
    }
    let mut k: usize = 0;
    while k < m
        invariant
            n == v@.len(),
            i + m <= n,
            m == l@.len(),
            k <= m,
            forall|q: int| 0 <= q < k ==> v@.skip(i as int)[q] == l@[q],
        decreases m - k,
    {
        let c = v[i + k];
        let lc = l.get_char(k);
        if c != lc {
            proof {
                assert(v@.skip(i as int)[k as int] == v@[i + k]);
                if strip_lit(v@.skip(i as int), l@) is Some {
                    assert(v@.skip(i as int).take(m as int) == l@);
                    assert(v@.skip(i as int).take(m as int)[k as int] == l@[k as int]);
                    assert(false);
                }
            }
            return None;
        }
        assert(v@.skip(i as int)[k as int] == v@[i + k]);
        k = k + 1;
    }
    assert(v@.skip(i as int).take(m as int) =~= l@);
    assert(v@.skip(i as int).skip(m as int) =~= v@.skip(i + m));
    Some(i + m)
}

/// Parses a quoted-string body starting at `i` (after the opening quote):
/// the unescaped content and the position after the closing quote.
fn parse_string_at(v: &Vec<char>, i: usize) -> (r: Option<(Vec<char>, usize)>)
    requires
        i <= v@.len(),
    ensures
        match r {
            Some(p) => i <= p.1 <= v@.len() && pstr(v@.skip(i as int)) == Some(
                (p.0@, v@.skip(p.1 as int)),
            ),
            None => pstr(v@.skip(i as int)) is None,
        },
{
    let mut acc: Vec<char> = Vec::new();
    let mut j = i;
    loop
        invariant
            i <= j <= v@.len(),
            (match pstr(v@.skip(j as int)) {
                Some(p) => pstr(v@.skip(i as int)) == Some((acc@ + p.0, p.1)),
                None => pstr(v@.skip(i as int)) is None,
            }),
        decreases v@.len() - j,
    {
        if j >= v.len() {
            assert(v@.skip(j as int).len() == 0);
            return None;
        }
        let c = v[j];
        assert(v@.skip(j as int)[0] == v@[j as int]);
        if c == '"' {
            assert(v@.skip(j as int).skip(1) =~= v@.skip(j + 1));
            assert(pstr(v@.skip(j as int)) == Some(
                (Seq::<char>::empty(), v@.skip(j + 1)),
            ));
            assert(acc@ + Seq::<char>::empty() =~= acc@);
            return Some((acc, j + 1));
        } else if c == '\\' {
            if j + 1 >= v.len() {
                assert(v@.skip(j as int).len() < 2);
                assert(pstr(v@.skip(j as int)) is None);
                return None;
            }
            let c2 = v[j + 1];
            assert(v@.skip(j as int)[1] == v@[j + 1]);
            if c2 == '\\' || c2 == '"' {
                assert(v@.skip(j as int).skip(2) =~= v@.skip(j + 2));
                let ghost prev = acc@;
                acc.push(c2);
                proof {
                    if pstr(v@.skip(j + 2)) is Some {
                        let p = pstr(v@.skip(j + 2))->Some_0;
                        assert(pstr(v@.skip(j as int)) == Some((seq![v@[j + 1]] + p.0, p.1)));
                        assert(acc@ + p.0 =~= prev + (seq![v@[j + 1]] + p.0));
                    }
                }
                j = j + 2;
            } else {
                assert(pstr(v@.skip(j as int)) is None);
                return None;
            }
        } else {
            assert(v@.skip(j as int).skip(1) =~= v@.skip(j + 1));
            let ghost prev = acc@;
            acc.push(c);
            proof {
                if pstr(v@.skip(j + 1)) is Some {
                    let p = pstr(v@.skip(j + 1))->Some_0;
                    assert(pstr(v@.skip(j as int)) == Some((seq![v@[j as int]] + p.0, p.1)));
                    assert(acc@ + p.0 =~= prev + (seq![v@[j as int]] + p.0));
                }
            }
            j = j + 1;
        }
    }
}

/// The lower-case form of one character; agrees with [`lower_alpha`].
fn lower_char(c: char) -> (r: char)
    ensures
        r == lower_alpha(c),
{
    if c == 'A' {
        'a'
    } else if c == 'E' {
        'e'
    } else if c == 'F' {
        'f'
    } else if c == 'G' {
        'g'
    } else if c == 'I' {
        'i'
    } else if c == 'N' {
        'n'
    } else if c == 'O' {
        'o'
    } else if c == 'P' {
        'p'
    } else if c == 'R' {
        'r'
    } else if c == 'S' {
        's'
    } else if c == 'T' {
        't'
    } else {
        c
    }
}

/// ASCII-case-insensitive comparison of a parsed name against a keyword.
pub(crate) fn keyword_eq(n: &Vec<char>, k: &str) -> (r: bool)
    ensures
        r == is_kw(n@, k@),
{
    let m = k.unicode_len();
    if n.len() != m {
        return false;
    }
    let mut i: usize = 0;
    while i < m
        invariant
            m == k@.len(),
            n@.len() == m,
            i <= m,
            forall|q: int| 0 <= q < i ==> #[trigger] lower_alpha(n@[q]) == k@[q],
        decreases m - i,
    {
        let c = lower_char(n[i]);
        let kc = k.get_char(i);
        if c != kc {
            assert(lower_alpha(n@[i as int]) != k@[i as int]);
            return false;
        }
        i = i + 1;
    }
    true
}

/// Tests for a closing brace followed by nothing but spaces.
fn close_brace_at(v: &Vec<char>, i: usize) -> (r: bool)
    requires
        i <= v@.len(),
    ensures
        r == close_ok(v@.skip(i as int)),
{
    let j = skip_ws_at(v, i);
    match match_lit_at(v, j, "}") {
        Some(k) => {
            let j2 = skip_ws_at(v, k);
            j2 == v.len()
        },
        None => false,
    }
}

/// Parses what follows the command name, mirroring [`after_name`].
fn after_name_at(v: &Vec<char>, i: usize) -> (r: Option<Option<Vec<char>>>)
    requires
        i <= v@.len(),
    ensures
        match r {
            Some(a) => after_name(v@.skip(i as int)) == Some(
                match a {
                    Some(x) => Some(x@),
                    None => None::<Seq<char>>,
                },
            ),
            None => after_name(v@.skip(i as int)) is None,
        },
{
    if close_brace_at(v, i) {
        return Some(None);
    }
    let j0 = skip_ws_at(v, i);
    let j1 = match match_lit_at(v, j0, ",") {
        Some(j) => j,
        None => {
            return None;
        },
    };
    let j2 = skip_ws_at(v, j1);
    let j3 = match match_lit_at(v, j2, "\"arguments\"") {
        Some(j) => j,
        None => {
            return None;
        },
    };
    let j4 = skip_ws_at(v, j3);
    let j5 = match match_lit_at(v, j4, ":") {
        Some(j) => j,
        None => {
            return None;
        },
    };
    let j6 = skip_ws_at(v, j5);
    let j7 = match match_lit_at(v, j6, "[") {
        Some(j) => j,
        None => {
            return None;
        },
    };
    let j8 = skip_ws_at(v, j7);
    match match_lit_at(v, j8, "]") {
        Some(j9) => {
            if close_brace_at(v, j9) {
                Some(None)
            } else {
                None
            }
        },
        None => {
            let j10 = match match_lit_at(v, j8, "\"") {
                Some(j) => j,
                None => {
                    return None;
                },
            };
            let (arg, j11) = match parse_string_at(v, j10) {
                Some(p) => p,
                None => {
                    return None;
                },
            };
            let j12 = skip_ws_at(v, j11);
            let j13 = match match_lit_at(v, j12, "]") {
                Some(j) => j,
                None => {
                    return None;
                },
            };
            if close_brace_at(v, j13) {
                Some(Some(arg))
            } else {
                None
            }
        },
    }
}

/// Decodes a structured-text wire payload into a command.
///
/// Succeeds exactly when [`dec_text`] recognizes the payload; a well-formed
/// object with an unrecognized command name yields `UnknownCommand` carrying
/// that name, and any other input yields `MalformedCommand` carrying the
/// whole raw input.
pub fn decode_command(input: &str) -> (r: Result<Command, DecodeError>)
    ensures
        match dec_text(input@) {
            DecodedV::Cmd(c) => r matches Ok(cmd) && cmd@ == c,
            DecodedV::Unknown(n) => r matches Err(DecodeError::UnknownCommand { name }) && name@
                == n,
            DecodedV::Malformed => r matches Err(DecodeError::MalformedCommand { raw }) && raw@
                == input@,
        },
{
    let v = to_chars(input);
    assert(v@.skip(0) =~= input@);
    let i0 = skip_ws_at(&v, 0);
    let i1 = match match_lit_at(&v, i0, "{") {
        Some(j) => j,
        None => {
            return Err(DecodeError::MalformedCommand { raw: String::from_str(input) });
        },
    };
    let i2 = skip_ws_at(&v, i1);
    let i3 = match match_lit_at(&v, i2, "\"command\"") {
        Some(j) => j,
        None => {
            return Err(DecodeError::MalformedCommand { raw: String::from_str(input) });
        },
    };
    let i4 = skip_ws_at(&v, i3);
    let i5 = match match_lit_at(&v, i4, ":") {
        Some(j) => j,
        None => {
            return Err(DecodeError::MalformedCommand { raw: String::from_str(input) });
        },
    };
    let i6 = skip_ws_at(&v, i5);
    let i7 = match match_lit_at(&v, i6, "\"") {
        Some(j) => j,
        None => {
            return Err(DecodeError::MalformedCommand { raw: String::from_str(input) });
        },
    };
    let (name, i8) = match parse_string_at(&v, i7) {
        Some(p) => p,
        None => {
            return Err(DecodeError::MalformedCommand { raw: String::from_str(input) });
        },
    };
    let arg = match after_name_at(&v, i8) {
        Some(a) => a,
        None => {
            return Err(DecodeError::MalformedCommand { raw: String::from_str(input) });
        },
    };
    if keyword_eq(&name, "start") {
        Ok(
            Command::Start {
                name: match arg {
                    Some(a) => Some(chars_to_string(&a)),
                    None => None,
                },
            },
        )
    } else if keyword_eq(&name, "stop") {
        match arg {
            Some(_) => Err(DecodeError::MalformedCommand { raw: String::from_str(input) }),
            None => Ok(Command::Stop),
        }
    } else if keyword_eq(&name, "getinfo") {
        match arg {
            Some(_) => Err(DecodeError::MalformedCommand { raw: String::from_str(input) }),
            None => Ok(Command::GetInfo),
        }
    } else {
        Err(DecodeError::UnknownCommand { name: chars_to_string(&name) })
    }
}

/// Encodes a command in the canonical structured-text form.
pub fn encode_command(c: &Command) -> (r: String)
    ensures
        r@ == enc_text(c@),
{
    match c {
        Command::Start { name: Some(n) } => {
            let mut out = String::from_str("{\"command\":\"start\",\"arguments\":[\"");
            append_escaped(&mut out, n.as_str());
            out.append("\"]}");
            assert(out@ =~= "{\"command\":\"start\",\"arguments\":[\""@ + esc(n@) + "\"]}"@);
            out
        },
        Command::Start { name: None } => String::from_str(
            "{\"command\":\"start\",\"arguments\":[]}",
        ),
        Command::Stop => String::from_str("{\"command\":\"stop\",\"arguments\":[]}"),
        Command::GetInfo => String::from_str("{\"command\":\"getinfo\",\"arguments\":[]}"),
    }
}

/// The structured-text encoding of a response:
/// `{"status":"<status>","message":"<message>"}`.
pub open spec fn enc_resp(r: ResponseV) -> Seq<char> {
    "{\"status\":\""@ + esc(r.status) + "\",\"message\":\""@ + esc(r.message) + "\"}"@
}

/// What the structured-text response decoder yields for a wire payload.
pub open spec fn dec_resp(s: Seq<char>) -> Option<ResponseV> {
    match strip_lit(strip_ws(s), "{"@) {
        None => None,
        Some(s1) => match strip_lit(strip_ws(s1), "\"status\""@) {
            None => None,
            Some(s2) => match strip_lit(strip_ws(s2), ":"@) {
                None => None,
                Some(s3) => match strip_lit(strip_ws(s3), "\""@) {
                    None => None,
                    Some(s4) => match pstr(s4) {
                        None => None,
                        Some(p) => match strip_lit(strip_ws(p.1), ","@) {
                            None => None,
                            Some(s5) => match strip_lit(strip_ws(s5), "\"message\""@) {
                                None => None,
                                Some(s6) => match strip_lit(strip_ws(s6), ":"@) {
                                    None => None,
                                    Some(s7) => match strip_lit(strip_ws(s7), "\""@) {
                                        None => None,
                                        Some(s8) => match pstr(s8) {
                                            None => None,
                                            Some(q) => if close_ok(q.1) {
                                                Some(ResponseV { status: p.0, message: q.0 })
                                            } else {
                                                None
                                            },
                                        },
                                    },
                                },
                            },
                        },
                    },
                },
            },
        },
    }
}

/// Encodes a response in the canonical structured-text form.
pub fn encode_response(r: &CommandResponse) -> (out: String)
    ensures
        out@ == enc_resp(r@),
{
    let mut out = String::from_str("{\"status\":\"");
    append_escaped(&mut out, r.status.as_str());
    out.append("\",\"message\":\"");
    append_escaped(&mut out, r.message.as_str());
    out.append("\"}");
    assert(out@ =~= enc_resp(r@));
    out
}

/// Decodes a structured-text response; succeeds exactly when [`dec_resp`]
/// recognizes the payload.
pub fn decode_response(input: &str) -> (r: Option<CommandResponse>)
    ensures
        match dec_resp(input@) {
            Some(rv) => r matches Some(resp) && resp@ == rv,
            None => r is None,
        },
{
    let v = to_chars(input);
    assert(v@.skip(0) =~= input@);
    let i0 = skip_ws_at(&v, 0);
    let i1 = match match_lit_at(&v, i0, "{") {
        Some(j) => j,
        None => {
            return None;
        },
    };
    let i2 = skip_ws_at(&v, i1);
    let i3 = match match_lit_at(&v, i2, "\"status\"") {
        Some(j) => j,
        None => {
            return None;
        },
    };
    let i4 = skip_ws_at(&v, i3);
    let i5 = match match_lit_at(&v, i4, ":") {
        Some(j) => j,
        None => {
            return None;
        },
    };
    let i6 = skip_ws_at(&v, i5);
    let i7 = match match_lit_at(&v, i6, "\"") {
        Some(j) => j,
        None => {
            return None;
        },
    };
    let (status, i8) = match parse_string_at(&v, i7) {
        Some(p) => p,
        None => {
            return None;
        },
    };
    let i9 = skip_ws_at(&v, i8);
    let i10 = match match_lit_at(&v, i9, ",") {
        Some(j) => j,
        None => {
            return None;
        },
    };
    let i11 = skip_ws_at(&v, i10);
    let i12 = match match_lit_at(&v, i11, "\"message\"") {
        Some(j) => j,
        None => {
            return None;
        },
    };
    let i13 = skip_ws_at(&v, i12);
    let i14 = match match_lit_at(&v, i13, ":") {
        Some(j) => j,
        None => {
            return None;
        },
    };
    let i15 = skip_ws_at(&v, i14);
    let i16 = match match_lit_at(&v, i15, "\"") {
        Some(j) => j,
        None => {
            return None;
        },
    };
    let (message, i17) = match parse_string_at(&v, i16) {
        Some(p) => p,
        None => {
            return None;
        },
    };
    if close_brace_at(&v, i17) {
        Some(
            CommandResponse {
                status: chars_to_string(&status),
                message: chars_to_string(&message),
            },
        )
    } else {
        None
    }
}

/// The response mapping is lossless: decoding the canonical encoding of any
/// response yields exactly that response.
pub proof fn lemma_resp_round_trip(r: ResponseV)
    ensures
        dec_resp(enc_resp(r)) == Some(r),
{
    reveal_strlit("{\"status\":\"");
    reveal_strlit("\",\"message\":\"");
    reveal_strlit("\"}");
    reveal_strlit("{");
    reveal_strlit("\"status\"");
    reveal_strlit("\"message\"");
    reveal_strlit(":");
    reveal_strlit(",");
    reveal_strlit("\"");
    reveal_strlit("}");
    let s = enc_resp(r);
    let mid4 = "\""@ + (esc(r.message) + (seq!['"'] + "}"@));
    let mid3 = ":"@ + mid4;
    let mid2 = "\"message\""@ + mid3;
    let mid1 = ","@ + mid2;
    let rest4 = esc(r.status) + (seq!['"'] + mid1);
    let rest3 = "\""@ + rest4;
    let rest2 = ":"@ + rest3;
    let rest1 = "\"status\""@ + rest2;
    assert(s =~= "{"@ + rest1);
    assert(s[0] == '{');
    lemma_strip_ws_nonspace(s);
    lemma_strip_lit_prefix("{"@, rest1);
    assert(rest1[0] == '"');
    lemma_strip_ws_nonspace(rest1);
    lemma_strip_lit_prefix("\"status\""@, rest2);
    assert(rest2[0] == ':');
    lemma_strip_ws_nonspace(rest2);
    lemma_strip_lit_prefix(":"@, rest3);
    assert(rest3[0] == '"');
    lemma_strip_ws_nonspace(rest3);
    lemma_strip_lit_prefix("\""@, rest4);
    assert(rest4 =~= esc(r.status) + seq!['"'] + mid1);
    lemma_pstr_esc(r.status, mid1);
    assert(pstr(rest4) == Some((r.status, mid1)));
    assert(mid1[0] == ',');
    lemma_strip_ws_nonspace(mid1);
    lemma_strip_lit_prefix(","@, mid2);
    assert(mid2[0] == '"');
    lemma_strip_ws_nonspace(mid2);
    lemma_strip_lit_prefix("\"message\""@, mid3);
    assert(mid3[0] == ':');
    lemma_strip_ws_nonspace(mid3);
    lemma_strip_lit_prefix(":"@, mid4);
    assert(mid4[0] == '"');
    lemma_strip_ws_nonspace(mid4);
    lemma_strip_lit_prefix("\""@, esc(r.message) + (seq!['"'] + "}"@));
    assert(esc(r.message) + (seq!['"'] + "}"@) =~= esc(r.message) + seq!['"'] + "}"@);
    lemma_pstr_esc(r.message, "}"@);
    assert(pstr(esc(r.message) + (seq!['"'] + "}"@)) == Some((r.message, "}"@)));
    assert("}"@[0] == '}');
    lemma_strip_ws_nonspace("}"@);
    assert("}"@ =~= "}"@ + Seq::<char>::empty());
    lemma_strip_lit_prefix("}"@, Seq::<char>::empty());
    assert(close_ok("}"@));
    assert(dec_resp(s) == Some(ResponseV { status: r.status, message: r.message }));
    assert(ResponseV { status: r.status, message: r.message } == r);
}

proof fn lemma_strip_lit_prefix(l: Seq<char>, rest: Seq<char>)
    ensures
        strip_lit(l + rest, l) == Some(rest),
{
    assert((l + rest).take(l.len() as int) =~= l);
    assert((l + rest).skip(l.len() as int) =~= rest);
}

proof fn lemma_strip_lit_mismatch(s: Seq<char>, l: Seq<char>)
    requires
        l.len() > 0,
        s.len() == 0 || s[0] != l[0],
    ensures
        strip_lit(s, l) is None,
{
    if s.len() > 0 && l.len() <= s.len() && s.take(l.len() as int) == l {
        assert(s.take(l.len() as int)[0] == s[0]);
    }
}

proof fn lemma_strip_ws_nonspace(s: Seq<char>)
    requires
        s.len() > 0,
        s[0] != ' ',
    ensures
        strip_ws(s) == s,
{
}

proof fn lemma_esc_plain(s: Seq<char>)
    requires
        forall|i: int| 0 <= i < s.len() ==> #[trigger] s[i] != '"' && s[i] != '\\',
    ensures
        esc(s) == s,
    decreases s.len(),
{
    if s.len() == 0 {
    } else {
        assert(forall|i: int|
            0 <= i < s.skip(1).len() ==> #[trigger] s.skip(1)[i] != '"' && s.skip(1)[i] != '\\');
        lemma_esc_plain(s.skip(1));
        assert(esc(s) == esc1(s[0]) + s.skip(1));
        assert(esc1(s[0]) + s.skip(1) =~= s);
    }
}

proof fn lemma_pstr_esc(n: Seq<char>, rest: Seq<char>)
    ensures
        pstr(esc(n) + seq!['"'] + rest) == Some((n, rest)),
    decreases n.len(),
{
    let s = esc(n) + seq!['"'] + rest;
    if n.len() == 0 {
        assert(esc(n) == Seq::<char>::empty());
        assert(s[0] == '"');
        assert(s.skip(1) =~= rest);
        assert(n =~= Seq::<char>::empty());
    } else {
        lemma_pstr_esc(n.skip(1), rest);
        assert(esc(n) == esc1(n[0]) + esc(n.skip(1)));
        if n[0] == '"' || n[0] == '\\' {
            assert(s[0] == '\\');
            assert(s[1] == n[0]);
            assert(s.len() >= 2);
            assert(s.skip(2) =~= esc(n.skip(1)) + seq!['"'] + rest);
            assert(pstr(s) == Some((seq![n[0]] + n.skip(1), rest)));
            assert(seq![n[0]] + n.skip(1) =~= n);
        } else {
            assert(s[0] == n[0]);
            assert(s.skip(1) =~= esc(n.skip(1)) + seq!['"'] + rest);
            assert(pstr(s) == Some((seq![n[0]] + n.skip(1), rest)));
            assert(seq![n[0]] + n.skip(1) =~= n);
        }
    }
}

pub(crate) proof fn lemma_kw_self()
    ensures
        is_kw("start"@, "start"@),
        is_kw("stop"@, "stop"@),
        is_kw("getinfo"@, "getinfo"@),
{
    reveal_strlit("start");
    reveal_strlit("stop");
    reveal_strlit("getinfo");
    assert forall|i: int| 0 <= i < "start"@.len() implies #[trigger] lower_alpha("start"@[i])
        == "start"@[i] by {
        if i == 0 {
        } else if i == 1 {
        } else if i == 2 {
        } else if i == 3 {
        } else {
            assert(i == 4);
        }
    }
    assert forall|i: int| 0 <= i < "stop"@.len() implies #[trigger] lower_alpha("stop"@[i])
        == "stop"@[i] by {
        if i == 0 {
        } else if i == 1 {
        } else if i == 2 {
        } else {
            assert(i == 3);
        }
    }
    assert forall|i: int| 0 <= i < "getinfo"@.len() implies #[trigger] lower_alpha("getinfo"@[i])
        == "getinfo"@[i] by {
        if i == 0 {
        } else if i == 1 {
        } else if i == 2 {
        } else if i == 3 {
        } else if i == 4 {
        } else if i == 5 {
        } else {
            assert(i == 6);
        }
    }
}

proof fn lemma_dec_shape(n: Seq<char>, t: Seq<char>)
    ensures
        dec_text("{\"command\":\""@ + esc(n) + seq!['"'] + t) == (match after_name(t) {
            Some(arg) => interpret(n, arg),
            None => DecodedV::Malformed,
        }),
{
    reveal_strlit("{\"command\":\"");
    reveal_strlit("{");
    reveal_strlit("\"command\"");
    reveal_strlit(":");
    reveal_strlit("\"");
    let s = "{\"command\":\""@ + esc(n) + seq!['"'] + t;
    let rest4 = esc(n) + (seq!['"'] + t);
    let rest3 = "\""@ + rest4;
    let rest2 = ":"@ + rest3;
    let rest1 = "\"command\""@ + rest2;
    assert(s =~= "{"@ + rest1);
    assert(s[0] == '{');
    lemma_strip_ws_nonspace(s);
    lemma_strip_lit_prefix("{"@, rest1);
    assert(strip_lit(strip_ws(s), "{"@) == Some(rest1));
    assert(rest1[0] == '"');
    lemma_strip_ws_nonspace(rest1);
    lemma_strip_lit_prefix("\"command\""@, rest2);
    assert(rest2[0] == ':');
    lemma_strip_ws_nonspace(rest2);
    lemma_strip_lit_prefix(":"@, rest3);
    assert(rest3[0] == '"');
    lemma_strip_ws_nonspace(rest3);
    lemma_strip_lit_prefix("\""@, rest4);
    assert(rest4 =~= esc(n) + seq!['"'] + t);
    lemma_pstr_esc(n, t);
    assert(pstr(rest4) == Some((n, t)));
}

proof fn lemma_after_noargs()
    ensures
        after_name(",\"arguments\":[]}"@) == Some(None::<Seq<char>>),
{
    reveal_strlit(",\"arguments\":[]}");
    reveal_strlit(",");
    reveal_strlit("\"arguments\"");
    reveal_strlit(":");
    reveal_strlit("[");
    reveal_strlit("]");
    reveal_strlit("}");
    reveal_strlit("\"arguments\":[]}");
    reveal_strlit(":[]}");
    reveal_strlit("[]}");
    reveal_strlit("]}");
    let t = ",\"arguments\":[]}"@;
    assert(t[0] == ',');
    lemma_strip_ws_nonspace(t);
    lemma_strip_lit_mismatch(t, "}"@);
    assert(!close_ok(t));
    assert(t =~= ","@ + "\"arguments\":[]}"@);
    lemma_strip_lit_prefix(","@, "\"arguments\":[]}"@);
    let t1 = "\"arguments\":[]}"@;
    assert(t1[0] == '"');
    lemma_strip_ws_nonspace(t1);
    assert(t1 =~= "\"arguments\""@ + ":[]}"@);
    lemma_strip_lit_prefix("\"arguments\""@, ":[]}"@);
    let t2 = ":[]}"@;
    assert(t2[0] == ':');
    lemma_strip_ws_nonspace(t2);
    assert(t2 =~= ":"@ + "[]}"@);
    lemma_strip_lit_prefix(":"@, "[]}"@);
    let t3 = "[]}"@;
    assert(t3[0] == '[');
    lemma_strip_ws_nonspace(t3);
    assert(t3 =~= "["@ + "]}"@);
    lemma_strip_lit_prefix("["@, "]}"@);
    let t4 = "]}"@;
    assert(t4[0] == ']');
    lemma_strip_ws_nonspace(t4);
    assert(t4 =~= "]"@ + "}"@);
    lemma_strip_lit_prefix("]"@, "}"@);
    let t5 = "}"@;
    assert(t5[0] == '}');
    lemma_strip_ws_nonspace(t5);
    assert(t5 =~= "}"@ + Seq::<char>::empty());
    lemma_strip_lit_prefix("}"@, Seq::<char>::empty());
    assert(close_ok(t5));
}

proof fn lemma_after_arg(a: Seq<char>)
    ensures
        after_name(",\"arguments\":[\""@ + esc(a) + seq!['"'] + "]}"@) == Some(Some(a)),
{
    reveal_strlit(",\"arguments\":[\"");
    reveal_strlit(",");
    reveal_strlit("\"arguments\"");
    reveal_strlit(":");
    reveal_strlit("[");
    reveal_strlit("]");
    reveal_strlit("}");
    reveal_strlit("\"");
    reveal_strlit("]}");
    let t = ",\"arguments\":[\""@ + esc(a) + seq!['"'] + "]}"@;
    let t5 = "\""@ + (esc(a) + (seq!['"'] + "]}"@));
    let t4 = "["@ + t5;
    let t3 = ":"@ + ("["@ + t5);
    let t2 = "\"arguments\""@ + t3;
    assert(t =~= ","@ + t2);
    assert(t[0] == ',');
    lemma_strip_ws_nonspace(t);
    lemma_strip_lit_mismatch(t, "}"@);
    assert(!close_ok(t));
    lemma_strip_lit_prefix(","@, t2);
    assert(t2[0] == '"');
    lemma_strip_ws_nonspace(t2);
    lemma_strip_lit_prefix("\"arguments\""@, t3);
    assert(t3[0] == ':');
    lemma_strip_ws_nonspace(t3);
    lemma_strip_lit_prefix(":"@, "["@ + t5);
    assert(("["@ + t5)[0] == '[');
    lemma_strip_ws_nonspace("["@ + t5);
    lemma_strip_lit_prefix("["@, t5);
    assert(t5[0] == '"');
    lemma_strip_ws_nonspace(t5);
    lemma_strip_lit_mismatch(t5, "]"@);
    lemma_strip_lit_prefix("\""@, esc(a) + (seq!['"'] + "]}"@));
    assert(esc(a) + (seq!['"'] + "]}"@) =~= esc(a) + seq!['"'] + "]}"@);
    lemma_pstr_esc(a, "]}"@);
    assert(pstr(esc(a) + (seq!['"'] + "]}"@)) == Some((a, "]}"@)));
    let t6 = "]}"@;
    assert(t6[0] == ']');
    lemma_strip_ws_nonspace(t6);
    assert(t6 =~= "]"@ + "}"@);
    lemma_strip_lit_prefix("]"@, "}"@);
    let t7 = "}"@;
    assert(t7[0] == '}');
    lemma_strip_ws_nonspace(t7);
    assert(t7 =~= "}"@ + Seq::<char>::empty());
    lemma_strip_lit_prefix("}"@, Seq::<char>::empty());
    assert(close_ok(t7));
}

/// The structured-text encoding is lossless: decoding the canonical encoding
/// of any command yields exactly that command, for both wire directions of
/// the mapping.
pub proof fn lemma_text_round_trip(c: CommandV)
    ensures
        dec_text(enc_text(c)) == DecodedV::Cmd(c),
{
    reveal_strlit("start");
    reveal_strlit("stop");
    reveal_strlit("getinfo");
    lemma_kw_self();
    match c {
        CommandV::Start { name: Some(n) } => {
            reveal_strlit("{\"command\":\"start\",\"arguments\":[\"");
            reveal_strlit("{\"command\":\"");
            reveal_strlit(",\"arguments\":[\"");
            reveal_strlit("\"]}");
            reveal_strlit("]}");
            lemma_esc_plain_start();
            let t = ",\"arguments\":[\""@ + esc(n) + seq!['"'] + "]}"@;
            assert(enc_text(c) =~= "{\"command\":\""@ + esc("start"@) + seq!['"'] + t);
            lemma_dec_shape("start"@, t);
            lemma_after_arg(n);
        },
        CommandV::Start { name: None } => {
            reveal_strlit("{\"command\":\"start\",\"arguments\":[]}");
            reveal_strlit("{\"command\":\"");
            reveal_strlit(",\"arguments\":[]}");
            lemma_esc_plain_start();
            let t = ",\"arguments\":[]}"@;
            assert(enc_text(c) =~= "{\"command\":\""@ + esc("start"@) + seq!['"'] + t);
            lemma_dec_shape("start"@, t);
            lemma_after_noargs();
        },
        CommandV::Stop => {
            reveal_strlit("{\"command\":\"stop\",\"arguments\":[]}");
            reveal_strlit("{\"command\":\"");
            reveal_strlit(",\"arguments\":[]}");
            lemma_esc_plain_stop();
            let t = ",\"arguments\":[]}"@;
            assert(enc_text(c) =~= "{\"command\":\""@ + esc("stop"@) + seq!['"'] + t);
            lemma_dec_shape("stop"@, t);
            lemma_after_noargs();
            assert(!is_kw("stop"@, "start"@));
        },
        CommandV::GetInfo => {
            reveal_strlit("{\"command\":\"getinfo\",\"arguments\":[]}");
            reveal_strlit("{\"command\":\"");
            reveal_strlit(",\"arguments\":[]}");
            lemma_esc_plain_getinfo();
            let t = ",\"arguments\":[]}"@;
            assert(enc_text(c) =~= "{\"command\":\""@ + esc("getinfo"@) + seq!['"'] + t);
            lemma_dec_shape("getinfo"@, t);
            lemma_after_noargs();
            assert(!is_kw("getinfo"@, "start"@));
            assert(!is_kw("getinfo"@, "stop"@));
        },
    }
}

proof fn lemma_esc_plain_start()
    ensures
        esc("start"@) == "start"@,
{
    reveal_strlit("start");
    assert forall|i: int| 0 <= i < "start"@.len() implies #[trigger] "start"@[i] != '"'
        && "start"@[i] != '\\' by {
        if i == 0 {
        } else if i == 1 {
        } else if i == 2 {
        } else if i == 3 {
        } else {
            assert(i == 4);
        }
    }
    lemma_esc_plain("start"@);
}

proof fn lemma_esc_plain_stop()
    ensures
        esc("stop"@) == "stop"@,
{
    reveal_strlit("stop");
    assert forall|i: int| 0 <= i < "stop"@.len() implies #[trigger] "stop"@[i] != '"' && "stop"@[i]
        != '\\' by {
        if i == 0 {
        } else if i == 1 {
        } else if i == 2 {
        } else {
            assert(i == 3);
        }
    }
    lemma_esc_plain("stop"@);
}

proof fn lemma_esc_plain_getinfo()
    ensures
        esc("getinfo"@) == "getinfo"@,
{
    reveal_strlit("getinfo");
    assert forall|i: int| 0 <= i < "getinfo"@.len() implies #[trigger] "getinfo"@[i] != '"'
        && "getinfo"@[i] != '\\' by {
        if i == 0 {
        } else if i == 1 {
        } else if i == 2 {
        } else if i == 3 {
        } else if i == 4 {
        } else if i == 5 {
        } else {
            assert(i == 6);
        }
    }
    lemma_esc_plain("getinfo"@);
}

} // verus!
