//! `launchd ...`: the privileged daemon and the session agent, as launchd knows
//! them. The daemon's commands are told here; the agent's have their own module.

use vstd::prelude::*;

use crate::cli::LaunchdCommand;
use crate::identity::{effective_uid, real_uid};
use crate::launchd::install::{install_as, resume_install};
use crate::launchd::restart::{restart_as, resume_restart};
use crate::launchd::steps::{LaunchdReply, LaunchdState, LaunchdTurn, Places};
use crate::launchd::uninstall::{resume_uninstall, uninstall_as};
use crate::session_agent::steps::AgentTurn;

pub mod failure;
pub mod install;
pub mod laws;
pub mod locate;
pub mod location;
pub mod plist;
pub mod restart;
pub mod steps;
pub mod uninstall;

verus! {

/// What a command begins with.
#[derive(Debug)]
pub enum LaunchdStart<A> {
    Daemon(LaunchdTurn),
    /// Both services are to be put back, with these arguments.
    Reload(A),
    Agent(AgentTurn),
}

/// How a command begins, in a process of the user `uid` that acts as `euid`. The
/// commands on the daemon are for root alone.
pub open spec fn taken_up<A>(
    euid: u32,
    uid: u32,
    command: LaunchdCommand<A>,
    places: Places,
    start: LaunchdStart<A>,
) -> bool {
    match command {
        LaunchdCommand::Install { plist_template } => start matches LaunchdStart::Daemon(turn)
            && if euid == 0 {
            turn == install::install_begun(plist_template, places)
        } else {
            restart::refused(turn, "install"@)
        },
        LaunchdCommand::Restart => start matches LaunchdStart::Daemon(turn) && if euid == 0 {
            turn == restart::restart_begun()
        } else {
            restart::refused(turn, "restart"@)
        },
        LaunchdCommand::Reload(args) => start == LaunchdStart::Reload(args),
        LaunchdCommand::Uninstall => start matches LaunchdStart::Daemon(turn) && if euid == 0 {
            turn == uninstall::uninstall_begun(places)
        } else {
            restart::refused(turn, "uninstall"@)
        },
        LaunchdCommand::Agent { command } => start == LaunchdStart::<A>::Agent(
            crate::session_agent::taken_up(euid, uid, command),
        ),
    }
}

/// Whatever answers the operation that a command begins with is accepted.
pub open spec fn ready<A>(start: LaunchdStart<A>) -> bool {
    match start {
        LaunchdStart::Daemon(turn) => steps::ready(turn),
        LaunchdStart::Reload(_) => true,
        LaunchdStart::Agent(turn) => crate::session_agent::steps::ready(turn),
    }
}

/// Takes a command up, in a process of the user `uid` that acts as `euid`.
pub fn dispatch_as<A>(euid: u32, uid: u32, command: LaunchdCommand<A>, places: Places) -> (start:
    LaunchdStart<A>)
    ensures
        taken_up(euid, uid, command, places, start),
        ready(start),
{
    match command {
        LaunchdCommand::Install { plist_template } => LaunchdStart::Daemon(
            install_as(euid, plist_template, places),
        ),
        LaunchdCommand::Restart => LaunchdStart::Daemon(restart_as(euid)),
        LaunchdCommand::Reload(args) => LaunchdStart::Reload(args),
        LaunchdCommand::Uninstall => LaunchdStart::Daemon(uninstall_as(euid, places)),
        LaunchdCommand::Agent { command } => LaunchdStart::Agent(
            crate::session_agent::dispatch_as(euid, uid, command),
        ),
    }
}

/// Takes a command up.
pub fn dispatch<A>(command: LaunchdCommand<A>, places: Places) -> (start: LaunchdStart<A>)
    ensures
        exists|euid: u32, uid: u32| #[trigger] taken_up(euid, uid, command, places, start),
        ready(start),
{
    let euid: u32 = effective_uid();
    let uid: u32 = real_uid();
    let start = dispatch_as(euid, uid, command, places);
    assert(taken_up(euid, uid, command, places, start));
    start
}

/// How a command on the daemon goes on from an answer.
pub open spec fn stepped(state: LaunchdState, reply: LaunchdReply, turn: LaunchdTurn) -> bool {
    match state {
        LaunchdState::Install(state) => install::install_stepped(state, reply, turn),
        LaunchdState::Restart(state) => restart::restart_stepped(state, reply, turn),
        LaunchdState::Uninstall(state) => uninstall::uninstall_stepped(state, reply, turn),
    }
}

/// Goes on with a command on the daemon from the answer it was waiting for.
pub fn resume(state: LaunchdState, reply: LaunchdReply) -> (turn: LaunchdTurn)
    requires
        state.accepts(reply),
    ensures
        stepped(state, reply, turn),
        steps::ready(turn),
{
    match state {
        LaunchdState::Install(state) => resume_install(state, reply),
        LaunchdState::Restart(state) => resume_restart(state, reply),
        LaunchdState::Uninstall(state) => resume_uninstall(state, reply),
    }
}

} // verus!
