//! `launchd agent ...`: the session agent. It belongs to a user, brings that
//! user's automatic connections up at login, and takes them down at logout. Its
//! plist says nothing about connections: the agent asks the privileged daemon.

use vstd::prelude::*;

use crate::cli::AgentCommand;
use crate::identity::{effective_uid, real_uid};
use crate::session_agent::install::{
    install_as, resume_install, resume_status, resume_uninstall, status_as, uninstall_as,
};
use crate::session_agent::run::{resume_run, run};
use crate::session_agent::steps::{AgentError, AgentReply, AgentState, AgentTurn};

pub mod candidates;
pub mod install;
pub mod laws;
pub mod plist;
pub mod run;
pub mod steps;

verus! {

/// How a command begins, in a process of the user `uid` that acts as `euid`.
pub open spec fn taken_up(euid: u32, uid: u32, command: AgentCommand) -> AgentTurn {
    match command {
        AgentCommand::Install { force } => if euid == 0 {
            AgentTurn::Failed(AgentError::AsRoot)
        } else {
            install::install_begun(uid, force)
        },
        AgentCommand::Uninstall => if euid == 0 {
            AgentTurn::Failed(AgentError::AsRoot)
        } else {
            install::uninstall_begun(uid)
        },
        AgentCommand::Status => install::status_begun(uid),
        AgentCommand::Run => run::run_begun(),
    }
}

/// Takes a command up, in a process of the user `uid` that acts as `euid`.
pub fn dispatch_as(euid: u32, uid: u32, command: AgentCommand) -> (turn: AgentTurn)
    ensures
        turn == taken_up(euid, uid, command),
        steps::ready(turn),
{
    match command {
        AgentCommand::Install { force } => install_as(euid, uid, force),
        AgentCommand::Uninstall => uninstall_as(euid, uid),
        AgentCommand::Status => status_as(uid),
        AgentCommand::Run => run(),
    }
}

/// Takes a command up.
pub fn dispatch(command: AgentCommand) -> (turn: AgentTurn)
    ensures
        exists|euid: u32, uid: u32| turn == #[trigger] taken_up(euid, uid, command),
        steps::ready(turn),
{
    dispatch_as(effective_uid(), real_uid(), command)
}

/// How a command goes on from an answer.
pub open spec fn stepped(state: AgentState, reply: AgentReply, turn: AgentTurn) -> bool {
    match state {
        AgentState::Install(state) => install::install_stepped(state, reply, turn),
        AgentState::Uninstall(state) => install::uninstall_stepped(state, reply, turn),
        AgentState::Status(state) => install::status_stepped(state, reply, turn),
        AgentState::Run(state) => run::run_stepped(state, reply, turn),
    }
}

/// Goes on with a command from the answer it was waiting for.
pub fn resume(state: AgentState, reply: AgentReply) -> (turn: AgentTurn)
    requires
        state.accepts(reply),
    ensures
        stepped(state, reply, turn),
        steps::ready(turn),
{
    match state {
        AgentState::Install(state) => resume_install(state, reply),
        AgentState::Uninstall(state) => resume_uninstall(state, reply),
        AgentState::Status(state) => resume_status(state, reply),
        AgentState::Run(state) => resume_run(state, reply),
    }
}

} // verus!
