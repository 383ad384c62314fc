//! `connection ...`: the commands on stored connections. What they do happens in
//! the privileged daemon; here it is decided what to ask of it, and what to say.

use vstd::prelude::*;

use crate::cli::{ConnectionCommand, StartModeArg};
use crate::client::{ClientOp, ClientReply};
use crate::connection_cli::add::{cmd_add, resume_add, AddArgs};
use crate::connection_cli::all::{disconnect_all, resume_all};
use crate::connection_cli::one::{
    cmd_connect, cmd_get, cmd_mode, cmd_remove, resolve_id, resume_one, Task,
};
use crate::connection_cli::steps::{CliError, CliOp, CliReply, CliReport, CliState, CliTurn};
use crate::identity::{effective_uid, real_uid};
use crate::privileged_api::{ConnectionScope, ConnectionStartMode};
use crate::session_agent::steps::AgentTurn;

pub mod add;
pub mod all;
pub mod laws;
pub mod one;
pub mod steps;

verus! {

impl From<StartModeArg> for ConnectionStartMode {
    fn from(value: StartModeArg) -> (mode: ConnectionStartMode) {
        match value {
            StartModeArg::Manual => ConnectionStartMode::Manual,
            StartModeArg::Automatic => ConnectionStartMode::Automatic,
        }
    }
}

impl vstd::std_specs::convert::FromSpecImpl<StartModeArg> for ConnectionStartMode {
    open spec fn obeys_from_spec() -> bool {
        true
    }

    open spec fn from_spec(value: StartModeArg) -> ConnectionStartMode {
        value.mode()
    }
}

/// What a command begins with.
#[derive(Debug)]
pub enum CliStart {
    Connection(CliTurn),
    Agent(AgentTurn),
}

/// The scope that a list is to show.
pub open spec fn listed_scope(all: bool, global: bool) -> ConnectionScope {
    if all {
        ConnectionScope::All
    } else if global {
        ConnectionScope::Global
    } else {
        ConnectionScope::Mine
    }
}

/// How a listing begins.
pub open spec fn list_begun(scope: ConnectionScope) -> CliTurn {
    CliTurn::Do {
        note: None,
        op: CliOp::Client(ClientOp::List { scope, autostart: true }),
        state: CliState::Listing,
    }
}

/// How a command begins, in a process of the user `uid` that acts as `euid`.
pub open spec fn taken_up(euid: u32, uid: u32, command: ConnectionCommand) -> CliStart {
    match command {
        ConnectionCommand::Add { file, global, name, mtu, force, start_mode } =>
            CliStart::Connection(
            add::add_begun(
                AddArgs { file, global, name, mtu, force, start_mode: start_mode.mode() },
            ),
        ),
        ConnectionCommand::List { all, global } => CliStart::Connection(
            list_begun(listed_scope(all, global)),
        ),
        ConnectionCommand::Remove { id } => CliStart::Connection(one::one_begun(id, Task::Remove)),
        ConnectionCommand::Connect { id, debug } => CliStart::Connection(
            one::one_begun(id, Task::Connect { debug }),
        ),
        ConnectionCommand::Disconnect { id, all } => CliStart::Connection(
            if all {
                all::all_begun()
            } else {
                one::one_begun(id->0, Task::Disconnect)
            },
        ),
        ConnectionCommand::Mode { id, start_mode } => CliStart::Connection(
            one::one_begun(id, Task::SetMode { start_mode: start_mode.mode() }),
        ),
        ConnectionCommand::Get { id } => CliStart::Connection(one::one_begun(id, Task::Get)),
        ConnectionCommand::Agent { command } => CliStart::Agent(
            crate::session_agent::taken_up(euid, uid, command),
        ),
    }
}

/// Whatever answers the operation that a command begins with is accepted.
pub open spec fn ready(start: CliStart) -> bool {
    match start {
        CliStart::Connection(turn) => steps::ready(turn),
        CliStart::Agent(turn) => crate::session_agent::steps::ready(turn),
    }
}

/// Starts to list connections.
pub fn cmd_list(all: bool, global: bool) -> (turn: CliTurn)
    ensures
        turn == list_begun(listed_scope(all, global)),
        steps::ready(turn),
{
    let scope = if all {
        ConnectionScope::All
    } else if global {
        ConnectionScope::Global
    } else {
        ConnectionScope::Mine
    };
    CliTurn::Do {
        note: None,
        op: CliOp::Client(ClientOp::List { scope, autostart: true }),
        state: CliState::Listing,
    }
}

/// Starts to take one connection down, or all of them.
pub fn cmd_disconnect(id: Option<String>, all: bool) -> (turn: CliTurn)
    requires
        all || id is Some,
    ensures
        turn == (if all {
            all::all_begun()
        } else {
            one::one_begun(id->0, Task::Disconnect)
        }),
        steps::ready(turn),
{
    if all {
        return disconnect_all();
    }
    match id {
        Some(id) => resolve_id(id, Task::Disconnect),
        None => vstd::pervasive::unreached(),
    }
}

/// Takes a command up, in a process of the user `uid` that acts as `euid`.
pub fn dispatch_as(euid: u32, uid: u32, command: ConnectionCommand) -> (start: CliStart)
    requires
        command.complete(),
    ensures
        start == taken_up(euid, uid, command),
        ready(start),
{
    match command {
        ConnectionCommand::Add { file, global, name, mtu, force, start_mode } =>
            CliStart::Connection(
            cmd_add(
                AddArgs {
                    file,
                    global,
                    name,
                    mtu,
                    force,
                    start_mode: ConnectionStartMode::from(start_mode),
                },
            ),
        ),
        ConnectionCommand::List { all, global } => CliStart::Connection(cmd_list(all, global)),
        ConnectionCommand::Remove { id } => CliStart::Connection(cmd_remove(id)),
        ConnectionCommand::Connect { id, debug } => CliStart::Connection(cmd_connect(id, debug)),
        ConnectionCommand::Disconnect { id, all } => CliStart::Connection(cmd_disconnect(id, all)),
        ConnectionCommand::Mode { id, start_mode } => CliStart::Connection(
            cmd_mode(id, ConnectionStartMode::from(start_mode)),
        ),
        ConnectionCommand::Get { id } => CliStart::Connection(cmd_get(id)),
        ConnectionCommand::Agent { command } => CliStart::Agent(
            crate::session_agent::dispatch_as(euid, uid, command),
        ),
    }
}

/// Takes a command up.
pub fn dispatch(command: ConnectionCommand) -> (start: CliStart)
    requires
        command.complete(),
    ensures
        exists|euid: u32, uid: u32| start == #[trigger] taken_up(euid, uid, command),
        ready(start),
{
    dispatch_as(effective_uid(), real_uid(), command)
}

/// How a command goes on from an answer.
pub open spec fn stepped(state: CliState, reply: CliReply, turn: CliTurn) -> bool {
    match state {
        CliState::Add(state) => add::add_stepped(state, reply, turn),
        CliState::Listing => match reply {
            CliReply::Client(ClientReply::Listed(Ok(list))) => turn == CliTurn::Done {
                note: None,
                report: CliReport::Listed(list),
            },
            CliReply::Client(ClientReply::Listed(Err(cause))) => turn == CliTurn::Failed {
                note: None,
                error: CliError::Daemon { cause },
            },
            _ => false,
        },
        CliState::One(state) => one::one_stepped(state, reply, turn),
        CliState::DisconnectAll(state) => all::all_stepped(state, reply, turn),
    }
}

/// Goes on with a command from the answer it was waiting for.
pub fn resume(state: CliState, reply: CliReply) -> (turn: CliTurn)
    requires
        state.accepts(reply),
    ensures
        stepped(state, reply, turn),
        steps::ready(turn),
{
    match state {
        CliState::Add(state) => resume_add(state, reply),
        CliState::Listing => match reply {
            CliReply::Client(ClientReply::Listed(result)) => match result {
                Ok(list) => CliTurn::Done { note: None, report: CliReport::Listed(list) },
                Err(cause) => CliTurn::Failed { note: None, error: CliError::Daemon { cause } },
            },
            _ => vstd::pervasive::unreached(),
        },
        CliState::One(state) => resume_one(state, reply),
        CliState::DisconnectAll(state) => resume_all(state, reply),
    }
}

} // verus!
