//! The gateway: the shared state every transport operates on, and the
//! dispatcher that gives each command its meaning.
//!
//! `execute` is the single place command semantics are defined.  Every
//! adapter decodes its wire format into a [`Command`], calls `execute`
//! under exclusive access to one shared [`GatewayState`], and encodes the
//! returned [`CommandResponse`] in its native format.

use vstd::prelude::*;

use crate::chars::{append_escaped, esc};
use crate::command::{Command, CommandResponse, CommandV, GetInfoResponse, ResponseV};

verus! {

/// The shared state of the gateway: an identity fixed at bootstrap (`alias`,
/// `node_id`) and the one field any command may mutate (`status`).
#[derive(Debug, Clone, PartialEq, Eq)]
pub struct GatewayState {
    pub alias: String,
    pub node_id: String,
    pub status: String,
}

/// The mathematical view of a `GatewayState`.
pub struct StateV {
    pub alias: Seq<char>,
    pub node_id: Seq<char>,
    pub status: Seq<char>,
}

impl View for GatewayState {
    type V = StateV;

    open spec fn view(&self) -> StateV {
        StateV { alias: self.alias@, node_id: self.node_id@, status: self.status@ }
    }
}

/// The message answered to `Start`: the resolved name is the explicit one if
/// given, else the default placeholder.
pub open spec fn start_message(name: Option<Seq<char>>) -> Seq<char> {
    "Started with name: "@ + (match name {
        Some(n) => n,
        None => "default"@,
    })
}

/// The message answered to `GetInfo`: the serialized identity payload, with
/// quote and backslash escaped inside the quoted values.
pub open spec fn info_message(alias: Seq<char>, node_id: Seq<char>) -> Seq<char> {
    "{alias:\""@ + esc(alias) + "\", public_key:\""@ + esc(node_id) + "\"}"@
}

/// The closed status vocabulary every transport shares: a response's status
/// is always one of these four words, identically on every transport.
pub open spec fn valid_status(s: Seq<char>) -> bool {
    s == "started"@ || s == "stopped"@ || s == "info"@ || s == "error"@
}

/// The response `execute` returns for a command against a given state.
pub open spec fn response_of(st: StateV, c: CommandV) -> ResponseV {
    match c {
        CommandV::Start { name } => ResponseV {
            status: "started"@,
            message: start_message(name),
        },
        CommandV::Stop => ResponseV { status: "stopped"@, message: "Stopped"@ },
        CommandV::GetInfo => ResponseV {
            status: "info"@,
            message: info_message(st.alias, st.node_id),
        },
    }
}

/// The state `execute` leaves behind: `status` follows the command, the
/// identity fields never change.
pub open spec fn next_state(st: StateV, c: CommandV) -> StateV {
    match c {
        CommandV::Start { name } => StateV { status: "started"@, ..st },
        CommandV::Stop => StateV { status: "stopped"@, ..st },
        CommandV::GetInfo => st,
    }
}

/// Executes one command against the gateway state.
///
/// Never fails for a decoded command: `Start` always answers `started`,
/// `Stop` always answers `stopped` (idempotent regardless of prior status),
/// and `GetInfo` always answers `info` with the identity fixed at bootstrap.
/// The state mutation, if any, is applied before the response is built.
pub fn execute(state: &mut GatewayState, command: &Command) -> (r: CommandResponse)
    ensures
        final(state)@ == next_state(old(state)@, command@),
        r@ == response_of(old(state)@, command@),
{
    match command {
        Command::Start { name } => {
            state.status = String::from_str("started");
            let mut message = String::from_str("Started with name: ");
            match name {
                Some(n) => message.append(n.as_str()),
                None => message.append("default"),
            }
            CommandResponse { status: String::from_str("started"), message }
        },
        Command::Stop => {
            state.status = String::from_str("stopped");
            CommandResponse {
                status: String::from_str("stopped"),
                message: String::from_str("Stopped"),
            }
        },
        Command::GetInfo => {
            let mut message = String::from_str("{alias:\"");
            append_escaped(&mut message, state.alias.as_str());
            message.append("\", public_key:\"");
            append_escaped(&mut message, state.node_id.as_str());
            message.append("\"}");
            CommandResponse { status: String::from_str("info"), message }
        },
    }
}

/// The identity payload for the current state: what `GetInfo` reports.
pub fn get_info_payload(state: &GatewayState) -> (g: GetInfoResponse)
    ensures
        g@.alias == state@.alias,
        g@.public_key == state@.node_id,
{
    GetInfoResponse { alias: state.alias.clone(), public_key: state.node_id.clone() }
}

/// Serializes an identity payload exactly as the `GetInfo` response message
/// carries it.
pub fn encode_info(g: &GetInfoResponse) -> (r: String)
    ensures
        r@ == info_message(g@.alias, g@.public_key),
{
    let mut out = String::from_str("{alias:\"");
    append_escaped(&mut out, g.alias.as_str());
    out.append("\", public_key:\"");
    append_escaped(&mut out, g.public_key.as_str());
    out.append("\"}");
    assert(out@ =~= info_message(g@.alias, g@.public_key));
    out
}

/// The command authority all adapters defer to: it owns the shared state and
/// funnels every command through [`execute`].
pub struct CommandProcessor {
    pub state: GatewayState,
}

impl View for CommandProcessor {
    type V = StateV;

    open spec fn view(&self) -> StateV {
        self.state@
    }
}

impl CommandProcessor {
    /// A processor with an empty identity, for use before resolution.
    pub fn new() -> (r: CommandProcessor)
        ensures
            r@.alias == Seq::<char>::empty(),
            r@.node_id == Seq::<char>::empty(),
            r@.status == Seq::<char>::empty(),
    {
        CommandProcessor {
            state: GatewayState {
                alias: String::new(),
                node_id: String::new(),
                status: String::new(),
            },
        }
    }

    /// A processor whose identity is the given alias and node id.
    pub fn with_identity(alias: String, node_id: String) -> (r: CommandProcessor)
        ensures
            r@.alias == alias@,
            r@.node_id == node_id@,
            r@.status == Seq::<char>::empty(),
    {
        CommandProcessor { state: GatewayState { alias, node_id, status: String::new() } }
    }

    /// Executes one command against the owned state; see [`execute`].
    pub fn process_command(&mut self, command: &Command) -> (r: CommandResponse)
        ensures
            final(self)@ == next_state(old(self)@, command@),
            r@ == response_of(old(self)@, command@),
    {
        execute(&mut self.state, command)
    }
}

/// The state after a sequence of commands has been executed in order.
pub open spec fn run(st: StateV, cmds: Seq<CommandV>) -> StateV
    decreases cmds.len(),
{
    if cmds.len() == 0 {
        st
    } else {
        run(next_state(st, cmds[0]), cmds.skip(1))
    }
}

/// The state the `i`-th invocation observes: the one left by the `i`
/// invocations serialized before it.
pub open spec fn state_at(st: StateV, cmds: Seq<CommandV>, i: int) -> StateV {
    run(st, cmds.take(i))
}

proof fn lemma_run_snoc(st: StateV, cmds: Seq<CommandV>, c: CommandV)
    ensures
        run(st, cmds.push(c)) == next_state(run(st, cmds), c),
    decreases cmds.len(),
{
    if cmds.len() == 0 {
        assert(cmds.push(c)[0] == c);
        assert(cmds.push(c).skip(1) =~= Seq::<CommandV>::empty());
        assert(run(st, cmds.push(c)) == run(next_state(st, c), Seq::<CommandV>::empty()));
        assert(run(next_state(st, c), Seq::<CommandV>::empty()) == next_state(st, c));
        assert(run(st, cmds) == st);
    } else {
        assert(cmds.push(c)[0] == cmds[0]);
        assert(cmds.push(c).skip(1) =~= cmds.skip(1).push(c));
        lemma_run_snoc(next_state(st, cmds[0]), cmds.skip(1), c);
        assert(run(st, cmds.push(c)) == run(next_state(st, cmds[0]), cmds.skip(1).push(c)));
        assert(run(st, cmds) == run(next_state(st, cmds[0]), cmds.skip(1)));
    }
}

proof fn lemma_run_identity(st: StateV, cmds: Seq<CommandV>)
    ensures
        run(st, cmds).alias == st.alias,
        run(st, cmds).node_id == st.node_id,
    decreases cmds.len(),
{
    if cmds.len() > 0 {
        lemma_run_identity(next_state(st, cmds[0]), cmds.skip(1));
    }
}

/// Dispatch is deterministic in the sense the cross-transport contract
/// needs: after any sequence of commands, `Stop` still answers `stopped`,
/// and `GetInfo` still answers `info` with exactly the alias and node id
/// fixed at bootstrap — intervening `Start` and `Stop` calls change neither.
pub proof fn lemma_dispatch_determinism(st: StateV, cmds: Seq<CommandV>)
    ensures
        response_of(run(st, cmds), CommandV::Stop).status == "stopped"@,
        response_of(run(st, cmds), CommandV::Stop) == response_of(st, CommandV::Stop),
        response_of(run(st, cmds), CommandV::GetInfo).status == "info"@,
        response_of(run(st, cmds), CommandV::GetInfo).message == info_message(
            st.alias,
            st.node_id,
        ),
{
    lemma_run_identity(st, cmds);
}

/// The dispatcher never leaves the closed status vocabulary.
pub proof fn lemma_status_vocabulary(st: StateV, c: CommandV)
    ensures
        valid_status(response_of(st, c).status),
{
}

/// Serialized execution under the exclusive-access guard admits no torn
/// state: the snapshot the `i`-th invocation observes is produced atomically
/// from the previous snapshot and the previous command alone, and its
/// identity fields are always those fixed at bootstrap.
pub proof fn lemma_serialized_execution(st: StateV, cmds: Seq<CommandV>, i: int)
    requires
        0 <= i < cmds.len(),
    ensures
        state_at(st, cmds, i).alias == st.alias,
        state_at(st, cmds, i).node_id == st.node_id,
        state_at(st, cmds, i + 1) == next_state(state_at(st, cmds, i), cmds[i]),
{
    lemma_run_identity(st, cmds.take(i));
    assert(cmds.take(i + 1) =~= cmds.take(i).push(cmds[i]));
    lemma_run_snoc(st, cmds.take(i), cmds[i]);
}

} // verus!
