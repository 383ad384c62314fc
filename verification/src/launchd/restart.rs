//! Restarting the daemon.

use vstd::prelude::*;

use crate::identity::effective_uid;
use crate::launchd::failure::LaunchdError;
use crate::launchd::locate::{daemon_binary_path, resume_locate, LocateState, LocateStep};
use crate::launchd::steps;
use crate::launchd::steps::{LaunchdOp, LaunchdReply, LaunchdReport, LaunchdState, LaunchdTurn};

verus! {

/// What a restart is waiting for.
#[derive(Debug)]
pub enum RestartState {
    Locating(LocateState),
    Kicking,
}

impl RestartState {
    /// `reply` is of the kind that the restart is waiting for.
    pub open spec fn accepts(self, reply: LaunchdReply) -> bool {
        match self {
            RestartState::Locating(state) => state.accepts(reply),
            RestartState::Kicking => reply is Done,
        }
    }
}

/// A command that the caller may not give.
pub open spec fn refused(turn: LaunchdTurn, hint: Seq<char>) -> bool {
    turn matches LaunchdTurn::Failed(LaunchdError::NeedsRoot { hint: given }) && given@ == hint
}

/// Passes root, as whom the process acts with `euid` of zero, and nobody else.
pub fn require_root_as(euid: u32, cmd_hint: &str) -> (result: Result<(), LaunchdError>)
    ensures
        result is Ok <==> euid == 0,
        result matches Err(error) ==> error matches LaunchdError::NeedsRoot { hint } && hint@
            == cmd_hint@,
{
    if euid != 0 {
        return Err(LaunchdError::NeedsRoot { hint: cmd_hint.to_string() });
    }
    Ok(())
}

/// Passes a process that runs as root, and hints at how to run the command
/// otherwise.
pub fn require_root(cmd_hint: &str) -> (result: Result<(), LaunchdError>)
    ensures
        result matches Err(error) ==> error matches LaunchdError::NeedsRoot { hint } && hint@
            == cmd_hint@,
{
    require_root_as(effective_uid(), cmd_hint)
}

/// How a restart begins: with the same search for the binary as an installation.
/// So a binary that could not be installed cannot restart the daemon either.
pub open spec fn restart_begun() -> LaunchdTurn {
    LaunchdTurn::Do {
        note: None,
        op: LaunchdOp::CurrentExe,
        state: LaunchdState::Restart(RestartState::Locating(LocateState::FindingExe)),
    }
}

/// Starts to restart the daemon, for a process that acts as `euid`.
pub fn restart_as(euid: u32) -> (turn: LaunchdTurn)
    ensures
        euid == 0 ==> turn == restart_begun(),
        euid != 0 ==> refused(turn, "restart"@),
        steps::ready(turn),
{
    match require_root_as(euid, "restart") {
        Err(error) => LaunchdTurn::Failed(error),
        Ok(_) => from_locating(daemon_binary_path()),
    }
}

/// Starts to restart the daemon.
pub fn cmd_restart() -> (turn: LaunchdTurn)
    ensures
        turn == restart_begun() || refused(turn, "restart"@),
        steps::ready(turn),
{
    restart_as(effective_uid())
}

/// A restart that goes on from a step of the search for the binary. The binary's
/// path itself is of no further use.
pub open spec fn restart_from(step: LocateStep) -> LaunchdTurn {
    match step {
        LocateStep::Ask(op, state) => LaunchdTurn::Do {
            note: None,
            op,
            state: LaunchdState::Restart(RestartState::Locating(state)),
        },
        LocateStep::Found(_) => LaunchdTurn::Do {
            note: None,
            op: LaunchdOp::Kickstart,
            state: LaunchdState::Restart(RestartState::Kicking),
        },
        LocateStep::Failed(error) => LaunchdTurn::Failed(error),
    }
}

fn from_locating(step: LocateStep) -> (turn: LaunchdTurn)
    ensures
        turn == restart_from(step),
{
    match step {
        LocateStep::Ask(op, state) => LaunchdTurn::Do {
            note: None,
            op,
            state: LaunchdState::Restart(RestartState::Locating(state)),
        },
        LocateStep::Found(_) => LaunchdTurn::Do {
            note: None,
            op: LaunchdOp::Kickstart,
            state: LaunchdState::Restart(RestartState::Kicking),
        },
        LocateStep::Failed(error) => LaunchdTurn::Failed(error),
    }
}

/// How a restart goes on from an answer.
pub open spec fn restart_stepped(
    state: RestartState,
    reply: LaunchdReply,
    turn: LaunchdTurn,
) -> bool {
    match (state, reply) {
        (RestartState::Locating(at), reply) => exists|step: LocateStep| #[trigger]
            crate::launchd::locate::locate_stepped(at, reply, step) && turn == restart_from(step),
        (RestartState::Kicking, LaunchdReply::Done(Ok(_))) => turn == LaunchdTurn::Done(
            LaunchdReport::Restarted,
        ),
        (RestartState::Kicking, LaunchdReply::Done(Err(cause))) => turn == LaunchdTurn::Failed(
            LaunchdError::DaemonMissing { cause },
        ),
        _ => false,
    }
}

/// Goes on with a restart from an answer.
pub fn resume_restart(state: RestartState, reply: LaunchdReply) -> (turn: LaunchdTurn)
    requires
        state.accepts(reply),
    ensures
        restart_stepped(state, reply, turn),
        steps::ready(turn),
{
    match (state, reply) {
        (RestartState::Locating(at), reply) => from_locating(resume_locate(at, reply)),
        (RestartState::Kicking, LaunchdReply::Done(result)) => match result {
            Ok(_) => LaunchdTurn::Done(LaunchdReport::Restarted),
            Err(cause) => LaunchdTurn::Failed(LaunchdError::DaemonMissing { cause }),
        },
        (_, _) => vstd::pervasive::unreached(),
    }
}

} // verus!
