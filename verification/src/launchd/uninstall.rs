//! Uninstalling the daemon. It has no way to go down by itself in good order, so
//! every tunnel is taken down while it can still be asked to.

use vstd::prelude::*;

use crate::client::{pick_connected, ClientOp, ClientReply};
use crate::identity::effective_uid;
use crate::launchd::failure::LaunchdError;
use crate::launchd::restart::require_root_as;
use crate::launchd::steps;
use crate::launchd::steps::{
    LaunchdNote, LaunchdOp, LaunchdReply, LaunchdReport, LaunchdState, LaunchdTurn, Places,
};
use crate::privileged_api::{ConnectionId, ConnectionScope, DisconnectReason};

verus! {

/// What an uninstallation is waiting for. The connections are swept `left` more
/// times after the sweep at hand.
#[derive(Debug)]
pub enum UninstallState {
    Listing { places: Places, left: u8 },
    /// The connections to take down, and the one that is being taken down.
    Disconnecting { places: Places, left: u8, ids: Vec<ConnectionId>, at: usize },
    Dropping(Places),
    Disabling(Places),
    RemovingPlist(Places),
    RemovingSocket(Places),
}

impl UninstallState {
    /// `reply` is of the kind that the uninstallation is waiting for.
    pub open spec fn accepts(self, reply: LaunchdReply) -> bool {
        match self {
            UninstallState::Listing { .. } => reply matches LaunchdReply::Client(
                ClientReply::Listed(_),
            ),
            UninstallState::Disconnecting { ids, at, .. } => at < ids@.len() && reply matches
                LaunchdReply::Client(ClientReply::Done(_)),
            _ => reply is Done,
        }
    }
}

/// The uninstallation goes on with `op`.
pub open spec fn next(
    note: Option<LaunchdNote>,
    op: LaunchdOp,
    state: UninstallState,
) -> LaunchdTurn {
    LaunchdTurn::Do { note, op, state: LaunchdState::Uninstall(state) }
}

fn go_on(note: Option<LaunchdNote>, op: LaunchdOp, state: UninstallState) -> (turn: LaunchdTurn)
    ensures
        turn == next(note, op, state),
{
    LaunchdTurn::Do { note, op, state: LaunchdState::Uninstall(state) }
}

/// Everybody's connections, from a daemon that runs already: one that does not
/// run has nothing to take down, and one that was started for this would be left
/// behind.
pub open spec fn listing() -> LaunchdOp {
    LaunchdOp::Client(ClientOp::List { scope: ConnectionScope::All, autostart: false })
}

fn list_all() -> (op: LaunchdOp)
    ensures
        op == listing(),
{
    LaunchdOp::Client(ClientOp::List { scope: ConnectionScope::All, autostart: false })
}

/// The connection is taken down because the daemon goes away; nobody asked for it
/// to stay down.
pub open spec fn taking_down(id: ConnectionId) -> LaunchdOp {
    LaunchdOp::Client(
        ClientOp::Disconnect { id, reason: DisconnectReason::SessionTeardown, autostart: false },
    )
}

/// How an uninstallation begins: with the first of two sweeps. A daemon that was
/// just started may still be bringing a connection up when the first sweep asks;
/// the second one finds it.
pub open spec fn uninstall_begun(places: Places) -> LaunchdTurn {
    next(None, listing(), UninstallState::Listing { places, left: 1 })
}

/// Starts to uninstall the daemon, for a process that acts as `euid`.
pub fn uninstall_as(euid: u32, places: Places) -> (turn: LaunchdTurn)
    ensures
        euid == 0 ==> turn == uninstall_begun(places),
        euid != 0 ==> crate::launchd::restart::refused(turn, "uninstall"@),
        steps::ready(turn),
{
    match require_root_as(euid, "uninstall") {
        Err(error) => LaunchdTurn::Failed(error),
        Ok(_) => disconnect_all_connections(places),
    }
}

/// Starts to uninstall the daemon.
pub fn cmd_uninstall(places: Places) -> (turn: LaunchdTurn)
    ensures
        turn == uninstall_begun(places) || crate::launchd::restart::refused(turn, "uninstall"@),
        steps::ready(turn),
{
    uninstall_as(effective_uid(), places)
}

/// Starts to take every connection down.
pub fn disconnect_all_connections(places: Places) -> (turn: LaunchdTurn)
    ensures
        turn == uninstall_begun(places),
        steps::ready(turn),
{
    disconnect_all_connections_once(None, places, 1)
}

fn disconnect_all_connections_once(note: Option<LaunchdNote>, places: Places, left: u8) -> (turn:
    LaunchdTurn)
    ensures
        turn == next(note, listing(), UninstallState::Listing { places, left }),
        steps::ready(turn),
{
    go_on(note, list_all(), UninstallState::Listing { places, left })
}

/// A sweep is over: the next one begins, or launchd is told to drop the daemon.
pub open spec fn swept(note: Option<LaunchdNote>, places: Places, left: u8) -> LaunchdTurn {
    if left > 0 {
        next(note, listing(), UninstallState::Listing { places, left: (left - 1) as u8 })
    } else {
        next(note, LaunchdOp::Bootout, UninstallState::Dropping(places))
    }
}

/// A sweep over `ids` goes on at `at`: with the next connection, or it is over.
pub open spec fn sweeping(
    note: Option<LaunchdNote>,
    places: Places,
    left: u8,
    ids: Seq<ConnectionId>,
    at: int,
    turn: LaunchdTurn,
) -> bool {
    if at < ids.len() {
        &&& turn matches LaunchdTurn::Do {
            note: shown,
            op,
            state: LaunchdState::Uninstall(
                UninstallState::Disconnecting { places: kept, left: same, ids: all, at: now },
            ),
        }
        &&& shown == note
        &&& op == taking_down(ids[at])
        &&& kept == places
        &&& same == left
        &&& all@ == ids
        &&& now == at
    } else {
        turn == swept(note, places, left)
    }
}

/// How an uninstallation goes on from an answer. A connection that cannot be taken
/// down does not keep the others up, and launchd's refusals do not matter.
pub open spec fn uninstall_stepped(
    state: UninstallState,
    reply: LaunchdReply,
    turn: LaunchdTurn,
) -> bool {
    match (state, reply) {
        (
            UninstallState::Listing { places, left },
            LaunchdReply::Client(ClientReply::Listed(Ok(list))),
        ) => sweeping(None, places, left, crate::client::connected_ids(list@), 0, turn),
        (
            UninstallState::Listing { places, left },
            LaunchdReply::Client(ClientReply::Listed(Err(cause))),
        ) => turn == swept(Some(LaunchdNote::ListFailed { cause }), places, left),
        (
            UninstallState::Disconnecting { places, left, ids, at },
            LaunchdReply::Client(ClientReply::Done(result)),
        ) => sweeping(
            Some(
                match result {
                    Ok(_) => LaunchdNote::Disconnected { id: ids@[at as int] },
                    Err(cause) => LaunchdNote::DisconnectFailed { id: ids@[at as int], cause },
                },
            ),
            places,
            left,
            ids@,
            at + 1,
            turn,
        ),
        (UninstallState::Dropping(places), LaunchdReply::Done(_)) => turn == next(
            None,
            LaunchdOp::Disable,
            UninstallState::Disabling(places),
        ),
        (UninstallState::Disabling(places), LaunchdReply::Done(_)) => turn == next(
            None,
            LaunchdOp::RemovePlist,
            UninstallState::RemovingPlist(places),
        ),
        (UninstallState::RemovingPlist(places), LaunchdReply::Done(Ok(_))) => turn == next(
            None,
            LaunchdOp::RemoveSocket { path: places.socket_path },
            UninstallState::RemovingSocket(places),
        ),
        (UninstallState::RemovingSocket(places), LaunchdReply::Done(Ok(_))) => turn
            == LaunchdTurn::Done(
            LaunchdReport::Uninstalled { log_dir: places.log_dir, socket_dir: places.socket_dir },
        ),
        (UninstallState::RemovingPlist(_), LaunchdReply::Done(Err(cause))) => turn
            == LaunchdTurn::Failed(LaunchdError::RemoveFailed { cause }),
        (UninstallState::RemovingSocket(_), LaunchdReply::Done(Err(cause))) => turn
            == LaunchdTurn::Failed(LaunchdError::RemoveFailed { cause }),
        _ => false,
    }
}

fn end_sweep(note: Option<LaunchdNote>, places: Places, left: u8) -> (turn: LaunchdTurn)
    ensures
        turn == swept(note, places, left),
        steps::ready(turn),
{
    if left > 0 {
        disconnect_all_connections_once(note, places, left - 1)
    } else {
        go_on(note, LaunchdOp::Bootout, UninstallState::Dropping(places))
    }
}

fn sweep(
    note: Option<LaunchdNote>,
    places: Places,
    left: u8,
    ids: Vec<ConnectionId>,
    at: usize,
) -> (turn: LaunchdTurn)
    ensures
        sweeping(note, places, left, ids@, at as int, turn),
        steps::ready(turn),
{
    if at < ids.len() {
        let id = ids[at].copy();
        return go_on(
            note,
            LaunchdOp::Client(
                ClientOp::Disconnect {
                    id,
                    reason: DisconnectReason::SessionTeardown,
                    autostart: false,
                },
            ),
            UninstallState::Disconnecting { places, left, ids, at },
        );
    }
    end_sweep(note, places, left)
}

/// Goes on with an uninstallation from an answer.
pub fn resume_uninstall(state: UninstallState, reply: LaunchdReply) -> (turn: LaunchdTurn)
    requires
        state.accepts(reply),
    ensures
        uninstall_stepped(state, reply, turn),
        steps::ready(turn),
{
    match (state, reply) {
        (
            UninstallState::Listing { places, left },
            LaunchdReply::Client(ClientReply::Listed(result)),
        ) => match result {
            Ok(list) => sweep(None, places, left, pick_connected(&list), 0),
            Err(cause) => end_sweep(Some(LaunchdNote::ListFailed { cause }), places, left),
        },
        (
            UninstallState::Disconnecting { places, left, ids, at },
            LaunchdReply::Client(ClientReply::Done(result)),
        ) => {
            let id = ids[at].copy();
            let note = match result {
                Ok(_) => LaunchdNote::Disconnected { id },
                Err(cause) => LaunchdNote::DisconnectFailed { id, cause },
            };
            assert(at < ids.len());
            sweep(Some(note), places, left, ids, at + 1)
        },
        (UninstallState::Dropping(places), LaunchdReply::Done(_)) => go_on(
            None,
            LaunchdOp::Disable,
            UninstallState::Disabling(places),
        ),
        (UninstallState::Disabling(places), LaunchdReply::Done(_)) => go_on(
            None,
            LaunchdOp::RemovePlist,
            UninstallState::RemovingPlist(places),
        ),
        (UninstallState::RemovingPlist(places), LaunchdReply::Done(result)) => match result {
            Ok(_) => {
                let path = places.socket_path.clone();
                go_on(
                    None,
                    LaunchdOp::RemoveSocket { path },
                    UninstallState::RemovingSocket(places),
                )
            },
            Err(cause) => LaunchdTurn::Failed(LaunchdError::RemoveFailed { cause }),
        },
        (UninstallState::RemovingSocket(places), LaunchdReply::Done(result)) => match result {
            Ok(_) => LaunchdTurn::Done(
                LaunchdReport::Uninstalled {
                    log_dir: places.log_dir,
                    socket_dir: places.socket_dir,
                },
            ),
            Err(cause) => LaunchdTurn::Failed(LaunchdError::RemoveFailed { cause }),
        },
        (_, _) => vstd::pervasive::unreached(),
    }
}

} // verus!
