//! Finding the daemon's binary, and making sure that it may run as root.

use vstd::prelude::*;

use crate::launchd::failure::LaunchdError;
use crate::launchd::location::validate_binary_location;
use crate::launchd::steps::{LaunchdOp, LaunchdReply};
use crate::paths::PathText;

verus! {

/// What the search for the binary is waiting for.
#[derive(Debug)]
pub enum LocateState {
    FindingExe,
    /// The path that was invoked.
    Resolving(PathText),
    /// The path that was invoked, and the file behind it.
    FindingUser(PathText, PathText),
    FindingHome(PathText, PathText),
    CheckingOwner(PathText),
}

/// How the search goes on.
#[derive(Debug)]
pub enum LocateStep {
    Ask(LaunchdOp, LocateState),
    Found(PathText),
    Failed(LaunchdError),
}

impl LocateState {
    /// `reply` is of the kind that the search is waiting for.
    pub open spec fn accepts(self, reply: LaunchdReply) -> bool {
        match self {
            LocateState::FindingExe => reply is Path,
            LocateState::Resolving(_) => reply is Path,
            LocateState::FindingUser(_, _) => reply is Var,
            LocateState::FindingHome(_, _) => reply is Home,
            LocateState::CheckingOwner(_) => reply is Done,
        }
    }

    /// The operation that the search is waiting for, as far as it is fixed by
    /// the state.
    pub open spec fn asks(self, op: LaunchdOp) -> bool {
        match self {
            LocateState::FindingExe => op is CurrentExe,
            LocateState::Resolving(invoked) => op matches LaunchdOp::Canonicalize { path }
                && path.same(invoked),
            LocateState::FindingUser(_, _) => op is ReadSudoUser,
            LocateState::FindingHome(_, _) => op is HomeOf,
            LocateState::CheckingOwner(invoked) => op matches LaunchdOp::CheckRootOwned { path }
                && path.same(invoked),
        }
    }
}

/// The search with all it needs to judge the place of the binary: it goes on to
/// ask who owns the file, or fails for the place.
pub open spec fn judged(
    invoked: PathText,
    resolved: PathText,
    home: Option<PathText>,
    step: LocateStep,
) -> bool {
    match crate::launchd::location::location_fault(invoked, resolved, home) {
        None => {
            &&& step matches LocateStep::Ask(LaunchdOp::CheckRootOwned { path }, state)
            &&& path.same(invoked)
            &&& state == LocateState::CheckingOwner(invoked)
        },
        Some((fault, path)) => step matches LocateStep::Failed(LaunchdError::Location(error))
            && error.fault == fault && error.path@ == path,
    }
}

/// How the search goes on from an answer. The binary is resolved, its place is
/// judged with the home of whoever ran `sudo` in mind, and then its owner.
pub open spec fn locate_stepped(state: LocateState, reply: LaunchdReply, step: LocateStep) -> bool {
    match (state, reply) {
        (LocateState::FindingExe, LaunchdReply::Path(Ok(invoked))) => {
            &&& step matches LocateStep::Ask(LaunchdOp::Canonicalize { path }, state)
            &&& path.same(invoked)
            &&& state == LocateState::Resolving(invoked)
        },
        (LocateState::FindingExe, LaunchdReply::Path(Err(cause))) => step == LocateStep::Failed(
            LaunchdError::ExeUnknown { cause },
        ),
        (LocateState::Resolving(invoked), LaunchdReply::Path(Ok(resolved))) => step
            == LocateStep::Ask(
            LaunchdOp::ReadSudoUser,
            LocateState::FindingUser(invoked, resolved),
        ),
        (LocateState::Resolving(invoked), LaunchdReply::Path(Err(cause))) => step
            == LocateStep::Failed(LaunchdError::Unresolved { path: invoked.text, cause }),
        (LocateState::FindingUser(invoked, resolved), LaunchdReply::Var(Some(user))) => step
            == LocateStep::Ask(
            LaunchdOp::HomeOf { user },
            LocateState::FindingHome(invoked, resolved),
        ),
        (LocateState::FindingUser(invoked, resolved), LaunchdReply::Var(None)) => judged(
            invoked,
            resolved,
            None,
            step,
        ),
        (LocateState::FindingHome(invoked, resolved), LaunchdReply::Home(home)) => judged(
            invoked,
            resolved,
            home,
            step,
        ),
        (LocateState::CheckingOwner(invoked), LaunchdReply::Done(Ok(_))) => step
            == LocateStep::Found(invoked),
        (LocateState::CheckingOwner(_), LaunchdReply::Done(Err(cause))) => step
            == LocateStep::Failed(LaunchdError::Untrusted { cause }),
        _ => false,
    }
}

/// Starts to find the daemon's binary.
pub fn daemon_binary_path() -> (step: LocateStep)
    ensures
        step == LocateStep::Ask(LaunchdOp::CurrentExe, LocateState::FindingExe),
{
    LocateStep::Ask(LaunchdOp::CurrentExe, LocateState::FindingExe)
}

fn judge(invoked: PathText, resolved: PathText, home: Option<PathText>) -> (step: LocateStep)
    ensures
        judged(invoked, resolved, home, step),
{
    let verdict = match &home {
        Some(home) => validate_binary_location(&invoked, &resolved, Some(home)),
        None => validate_binary_location(&invoked, &resolved, None),
    };
    match verdict {
        Err(error) => LocateStep::Failed(LaunchdError::Location(error)),
        Ok(_) => {
            let path = invoked.copy();
            LocateStep::Ask(
                LaunchdOp::CheckRootOwned { path },
                LocateState::CheckingOwner(invoked),
            )
        },
    }
}

/// Goes on with the search for the daemon's binary from an answer.
pub fn resume_locate(state: LocateState, reply: LaunchdReply) -> (step: LocateStep)
    requires
        state.accepts(reply),
    ensures
        locate_stepped(state, reply, step),
{
    match (state, reply) {
        (LocateState::FindingExe, LaunchdReply::Path(result)) => match result {
            Ok(invoked) => {
                let path = invoked.copy();
                LocateStep::Ask(LaunchdOp::Canonicalize { path }, LocateState::Resolving(invoked))
            },
            Err(cause) => LocateStep::Failed(LaunchdError::ExeUnknown { cause }),
        },
        (LocateState::Resolving(invoked), LaunchdReply::Path(result)) => match result {
            Ok(resolved) => LocateStep::Ask(
                LaunchdOp::ReadSudoUser,
                LocateState::FindingUser(invoked, resolved),
            ),
            Err(cause) => LocateStep::Failed(
                LaunchdError::Unresolved { path: invoked.text, cause },
            ),
        },
        (LocateState::FindingUser(invoked, resolved), LaunchdReply::Var(user)) => match user {
            Some(user) => LocateStep::Ask(
                LaunchdOp::HomeOf { user },
                LocateState::FindingHome(invoked, resolved),
            ),
            None => judge(invoked, resolved, None),
        },
        (LocateState::FindingHome(invoked, resolved), LaunchdReply::Home(home)) => judge(
            invoked,
            resolved,
            home,
        ),
        (LocateState::CheckingOwner(invoked), LaunchdReply::Done(result)) => match result {
            Ok(_) => LocateStep::Found(invoked),
            Err(cause) => LocateStep::Failed(LaunchdError::Untrusted { cause }),
        },
        (_, _) => vstd::pervasive::unreached(),
    }
}

} // verus!
