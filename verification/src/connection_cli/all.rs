//! `connection disconnect --all`: taking all of the user's connections down.

use vstd::prelude::*;

use crate::client::{pick_connected, ClientOp, ClientReply};
use crate::connection_cli::steps;
use crate::connection_cli::steps::{
    CliError, CliNote, CliOp, CliReply, CliReport, CliState, CliTurn,
};
use crate::privileged_api::{ConnectionId, ConnectionScope, DisconnectReason};

verus! {

/// What the taking down of all connections is waiting for.
#[derive(Debug)]
pub enum DisconnectAllState {
    Listing,
    /// The connections to take down, the one that is being taken down, and
    /// whether one of those before failed.
    Disconnecting { ids: Vec<ConnectionId>, at: usize, failed: bool },
}

impl DisconnectAllState {
    /// `reply` is of the kind that the taking down is waiting for.
    pub open spec fn accepts(self, reply: CliReply) -> bool {
        match self {
            DisconnectAllState::Listing => reply matches CliReply::Client(ClientReply::Listed(_)),
            DisconnectAllState::Disconnecting { ids, at, .. } => at < ids@.len() && reply matches
                CliReply::Client(ClientReply::Done(_)),
        }
    }
}

/// How the taking down begins: with the user's own connections.
pub open spec fn all_begun() -> CliTurn {
    CliTurn::Do {
        note: None,
        op: CliOp::Client(ClientOp::List { scope: ConnectionScope::Mine, autostart: true }),
        state: CliState::DisconnectAll(DisconnectAllState::Listing),
    }
}

/// The user wants the connection down.
pub open spec fn taking_down(id: ConnectionId) -> CliOp {
    CliOp::Client(
        ClientOp::Disconnect { id, reason: DisconnectReason::User, autostart: true },
    )
}

/// Starts to take all of the user's connections down.
pub fn disconnect_all() -> (turn: CliTurn)
    ensures
        turn == all_begun(),
        steps::ready(turn),
{
    CliTurn::Do {
        note: None,
        op: CliOp::Client(ClientOp::List { scope: ConnectionScope::Mine, autostart: true }),
        state: CliState::DisconnectAll(DisconnectAllState::Listing),
    }
}

/// The taking down goes on at `at`: with the next connection, or it is over, and
/// then it failed if one of them did.
pub open spec fn disconnecting(
    note: Option<CliNote>,
    ids: Seq<ConnectionId>,
    at: int,
    failed: bool,
    turn: CliTurn,
) -> bool {
    if at < ids.len() {
        &&& turn matches CliTurn::Do {
            note: said,
            op,
            state: CliState::DisconnectAll(DisconnectAllState::Disconnecting {
                ids: all,
                at: now,
                failed: so_far,
            }),
        }
        &&& said == note
        &&& op == taking_down(ids[at])
        &&& all@ == ids
        &&& now == at
        &&& so_far == failed
    } else if failed {
        turn == CliTurn::Failed { note, error: CliError::DisconnectsFailed }
    } else {
        turn == CliTurn::Done { note, report: CliReport::Said }
    }
}

/// How the taking down goes on from an answer. A connection that is stuck does
/// not keep the others up; but in the end the command fails for it.
pub open spec fn all_stepped(state: DisconnectAllState, reply: CliReply, turn: CliTurn) -> bool {
    match (state, reply) {
        (DisconnectAllState::Listing, CliReply::Client(ClientReply::Listed(Ok(list)))) => {
            let ids = crate::client::connected_ids(list@);
            if ids.len() == 0 {
                turn == CliTurn::Done { note: None, report: CliReport::NotConnected }
            } else {
                disconnecting(None, ids, 0, false, turn)
            }
        },
        (DisconnectAllState::Listing, CliReply::Client(ClientReply::Listed(Err(cause)))) => turn
            == CliTurn::Failed { note: None, error: CliError::Daemon { cause } },
        (
            DisconnectAllState::Disconnecting { ids, at, failed },
            CliReply::Client(ClientReply::Done(result)),
        ) => disconnecting(
            Some(
                match result {
                    Ok(_) => CliNote::Disconnected { id: ids@[at as int] },
                    Err(cause) => CliNote::DisconnectFailed { id: ids@[at as int], cause },
                },
            ),
            ids@,
            at + 1,
            failed || result is Err,
            turn,
        ),
        _ => false,
    }
}

fn disconnect_from(
    note: Option<CliNote>,
    ids: Vec<ConnectionId>,
    at: usize,
    failed: bool,
) -> (turn: CliTurn)
    ensures
        disconnecting(note, ids@, at as int, failed, turn),
        steps::ready(turn),
{
    if at < ids.len() {
        let id = ids[at].copy();
        return CliTurn::Do {
            note,
            op: CliOp::Client(
                ClientOp::Disconnect { id, reason: DisconnectReason::User, autostart: true },
            ),
            state: CliState::DisconnectAll(DisconnectAllState::Disconnecting { ids, at, failed }),
        };
    }
    if failed {
        return CliTurn::Failed { note, error: CliError::DisconnectsFailed };
    }
    CliTurn::Done { note, report: CliReport::Said }
}

/// Goes on with the taking down of all connections from an answer.
pub fn resume_all(state: DisconnectAllState, reply: CliReply) -> (turn: CliTurn)
    requires
        state.accepts(reply),
    ensures
        all_stepped(state, reply, turn),
        steps::ready(turn),
{
    match (state, reply) {
        (DisconnectAllState::Listing, CliReply::Client(ClientReply::Listed(result))) => {
            match result {
                Ok(list) => {
                    let ids = pick_connected(&list);
                    if ids.len() == 0 {
                        return CliTurn::Done { note: None, report: CliReport::NotConnected };
                    }
                    disconnect_from(None, ids, 0, false)
                },
                Err(cause) => CliTurn::Failed { note: None, error: CliError::Daemon { cause } },
            }
        },
        (
            DisconnectAllState::Disconnecting { ids, at, failed },
            CliReply::Client(ClientReply::Done(result)),
        ) => {
            let id = ids[at].copy();
            assert(at < ids.len());
            match result {
                Ok(_) => disconnect_from(
                    Some(CliNote::Disconnected { id }),
                    ids,
                    at + 1,
                    failed,
                ),
                Err(cause) => disconnect_from(
                    Some(CliNote::DisconnectFailed { id, cause }),
                    ids,
                    at + 1,
                    true,
                ),
            }
        },
        (_, _) => vstd::pervasive::unreached(),
    }
}

} // verus!
