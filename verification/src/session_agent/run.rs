//! The agent itself: it brings connections up when the session begins, and takes
//! them down when it ends.

use vstd::prelude::*;

use crate::client::{pick_connected, ClientOp, ClientReply};
use crate::privileged_api::{ConnectReason, ConnectionId, ConnectionScope, DisconnectReason};
use crate::session_agent::candidates::connect_candidates;
use crate::session_agent::steps;
use crate::session_agent::steps::{
    AgentError, AgentNote, AgentOp, AgentReply, AgentReport, AgentState, AgentTurn,
};

verus! {

/// What the agent is waiting for.
#[derive(Debug)]
pub enum RunState {
    Blocking,
    Listing,
    /// The connections to bring up, and the one that is being brought up.
    Connecting { ids: Vec<ConnectionId>, at: usize },
    Waiting,
    TeardownListing,
    /// The connections to take down, and the one that is being taken down.
    Disconnecting { ids: Vec<ConnectionId>, at: usize },
}

impl RunState {
    /// `reply` is of the kind that the agent is waiting for.
    pub open spec fn accepts(self, reply: AgentReply) -> bool {
        match self {
            RunState::Blocking => reply is Done,
            RunState::Listing => reply matches AgentReply::Client(ClientReply::Listed(_)),
            RunState::Connecting { ids, at } => at < ids@.len() && reply matches AgentReply::Client(
                ClientReply::Done(_),
            ),
            RunState::Waiting => reply is Signal,
            RunState::TeardownListing => reply matches AgentReply::Client(ClientReply::Listed(_)),
            RunState::Disconnecting { ids, at } => at < ids@.len() && reply matches
                AgentReply::Client(ClientReply::Done(_)),
        }
    }
}

/// The agent goes on with `op`.
pub open spec fn next(note: Option<AgentNote>, op: AgentOp, state: RunState) -> AgentTurn {
    AgentTurn::Do { note, op, state: AgentState::Run(state) }
}

fn go_on(note: Option<AgentNote>, op: AgentOp, state: RunState) -> (turn: AgentTurn)
    ensures
        turn == next(note, op, state),
{
    AgentTurn::Do { note, op, state: AgentState::Run(state) }
}

/// The user's own connections.
pub open spec fn listing() -> AgentOp {
    AgentOp::Client(ClientOp::List { scope: ConnectionScope::Mine, autostart: true })
}

fn list_mine() -> (op: AgentOp)
    ensures
        op == listing(),
{
    AgentOp::Client(ClientOp::List { scope: ConnectionScope::Mine, autostart: true })
}

/// The connection is brought up without the user having asked: the daemon looks
/// once more whether the user took it down meanwhile.
pub open spec fn bringing_up(id: ConnectionId) -> AgentOp {
    AgentOp::Client(ClientOp::Connect { id, debug: false, reason: ConnectReason::Reconciliation })
}

/// The connection is taken down because the session ends; nobody asked for it to
/// stay down.
pub open spec fn taking_down(id: ConnectionId) -> AgentOp {
    AgentOp::Client(
        ClientOp::Disconnect { id, reason: DisconnectReason::SessionTeardown, autostart: true },
    )
}

/// How the agent begins. The terminating signal is held back before anything
/// else: one that comes while the connections are being brought up must not end
/// the agent before it took them down again.
pub open spec fn run_begun() -> AgentTurn {
    next(None, AgentOp::BlockSigterm, RunState::Blocking)
}

/// Starts the agent.
pub fn run() -> (turn: AgentTurn)
    ensures
        turn == run_begun(),
        steps::ready(turn),
{
    go_on(None, AgentOp::BlockSigterm, RunState::Blocking)
}

/// The bringing up of `ids` goes on at `at`: with the next connection, or with
/// the wait for the signal.
pub open spec fn connecting(
    note: Option<AgentNote>,
    ids: Seq<ConnectionId>,
    at: int,
    turn: AgentTurn,
) -> bool {
    if at < ids.len() {
        &&& turn matches AgentTurn::Do {
            note: shown,
            op,
            state: AgentState::Run(RunState::Connecting { ids: all, at: now }),
        }
        &&& shown == note
        &&& op == bringing_up(ids[at])
        &&& all@ == ids
        &&& now == at
    } else {
        turn == next(note, AgentOp::WaitSignal, RunState::Waiting)
    }
}

/// The taking down of `ids` goes on at `at`: with the next connection, or it is
/// over and so is the agent.
pub open spec fn disconnecting(
    note: Option<AgentNote>,
    ids: Seq<ConnectionId>,
    at: int,
    turn: AgentTurn,
) -> bool {
    if at < ids.len() {
        &&& turn matches AgentTurn::Do {
            note: shown,
            op,
            state: AgentState::Run(RunState::Disconnecting { ids: all, at: now }),
        }
        &&& shown == note
        &&& op == taking_down(ids[at])
        &&& all@ == ids
        &&& now == at
    } else {
        turn == AgentTurn::Done { note, report: AgentReport::Ended }
    }
}

/// How the agent goes on from an answer. A connection that fails does not keep
/// the agent from the others, and a list that fails does not end the agent.
pub open spec fn run_stepped(state: RunState, reply: AgentReply, turn: AgentTurn) -> bool {
    match (state, reply) {
        (RunState::Blocking, AgentReply::Done(Ok(_))) => turn == next(
            None,
            listing(),
            RunState::Listing,
        ),
        (RunState::Blocking, AgentReply::Done(Err(cause))) => turn == AgentTurn::Failed(
            AgentError::NotBlocked { cause },
        ),
        (RunState::Listing, AgentReply::Client(ClientReply::Listed(Ok(list)))) => connecting(
            None,
            crate::session_agent::candidates::eligible_ids(list@),
            0,
            turn,
        ),
        (RunState::Listing, AgentReply::Client(ClientReply::Listed(Err(cause)))) => turn == next(
            Some(AgentNote::ListFailed { cause }),
            AgentOp::WaitSignal,
            RunState::Waiting,
        ),
        (RunState::Connecting { ids, at }, AgentReply::Client(ClientReply::Done(result))) =>
            connecting(
            match result {
                Ok(_) => None,
                Err(cause) => Some(AgentNote::ConnectFailed { id: ids@[at as int], cause }),
            },
            ids@,
            at + 1,
            turn,
        ),
        (RunState::Waiting, AgentReply::Signal(Ok(terminating))) => if terminating {
            turn == next(None, listing(), RunState::TeardownListing)
        } else {
            turn == next(None, AgentOp::WaitSignal, RunState::Waiting)
        },
        (RunState::Waiting, AgentReply::Signal(Err(cause))) => turn == AgentTurn::Failed(
            AgentError::WaitFailed { cause },
        ),
        (RunState::TeardownListing, AgentReply::Client(ClientReply::Listed(Ok(list)))) =>
            disconnecting(None, crate::client::connected_ids(list@), 0, turn),
        (RunState::TeardownListing, AgentReply::Client(ClientReply::Listed(Err(cause)))) => turn
            == AgentTurn::Done {
            note: Some(AgentNote::TeardownListFailed { cause }),
            report: AgentReport::Ended,
        },
        (RunState::Disconnecting { ids, at }, AgentReply::Client(ClientReply::Done(result))) =>
            disconnecting(
            match result {
                Ok(_) => None,
                Err(cause) => Some(AgentNote::DisconnectFailed { id: ids@[at as int], cause }),
            },
            ids@,
            at + 1,
            turn,
        ),
        _ => false,
    }
}

/// Starts to bring the user's connections up.
fn reconcile_connect_mine() -> (turn: AgentTurn)
    ensures
        turn == next(None, listing(), RunState::Listing),
        steps::ready(turn),
{
    go_on(None, list_mine(), RunState::Listing)
}

/// Starts to take the user's connections down.
fn reconcile_disconnect_mine() -> (turn: AgentTurn)
    ensures
        turn == next(None, listing(), RunState::TeardownListing),
        steps::ready(turn),
{
    go_on(None, list_mine(), RunState::TeardownListing)
}

/// Waits for a signal.
fn wait_for_pending_sigterm(note: Option<AgentNote>) -> (turn: AgentTurn)
    ensures
        turn == next(note, AgentOp::WaitSignal, RunState::Waiting),
        steps::ready(turn),
{
    go_on(note, AgentOp::WaitSignal, RunState::Waiting)
}

fn connect_from(note: Option<AgentNote>, ids: Vec<ConnectionId>, at: usize) -> (turn: AgentTurn)
    ensures
        connecting(note, ids@, at as int, turn),
        steps::ready(turn),
{
    if at < ids.len() {
        let id = ids[at].copy();
        return go_on(
            note,
            AgentOp::Client(
                ClientOp::Connect { id, debug: false, reason: ConnectReason::Reconciliation },
            ),
            RunState::Connecting { ids, at },
        );
    }
    wait_for_pending_sigterm(note)
}

fn disconnect_from(note: Option<AgentNote>, ids: Vec<ConnectionId>, at: usize) -> (turn: AgentTurn)
    ensures
        disconnecting(note, ids@, at as int, turn),
        steps::ready(turn),
{
    if at < ids.len() {
        let id = ids[at].copy();
        return go_on(
            note,
            AgentOp::Client(
                ClientOp::Disconnect {
                    id,
                    reason: DisconnectReason::SessionTeardown,
                    autostart: true,
                },
            ),
            RunState::Disconnecting { ids, at },
        );
    }
    AgentTurn::Done { note, report: AgentReport::Ended }
}

/// Goes on with the agent from an answer.
pub fn resume_run(state: RunState, reply: AgentReply) -> (turn: AgentTurn)
    requires
        state.accepts(reply),
    ensures
        run_stepped(state, reply, turn),
        steps::ready(turn),
{
    match (state, reply) {
        (RunState::Blocking, AgentReply::Done(result)) => match result {
            Ok(_) => reconcile_connect_mine(),
            Err(cause) => AgentTurn::Failed(AgentError::NotBlocked { cause }),
        },
        (RunState::Listing, AgentReply::Client(ClientReply::Listed(result))) => match result {
            Ok(list) => connect_from(None, connect_candidates(list.as_slice()), 0),
            Err(cause) => wait_for_pending_sigterm(Some(AgentNote::ListFailed { cause })),
        },
        (RunState::Connecting { ids, at }, AgentReply::Client(ClientReply::Done(result))) => {
            let note = match result {
                Ok(_) => None,
                Err(cause) => Some(AgentNote::ConnectFailed { id: ids[at].copy(), cause }),
            };
            assert(at < ids.len());
            connect_from(note, ids, at + 1)
        },
        (RunState::Waiting, AgentReply::Signal(result)) => match result {
            Ok(terminating) => if terminating {
                reconcile_disconnect_mine()
            } else {
                wait_for_pending_sigterm(None)
            },
            Err(cause) => AgentTurn::Failed(AgentError::WaitFailed { cause }),
        },
        (RunState::TeardownListing, AgentReply::Client(ClientReply::Listed(result))) => {
            match result {
                Ok(list) => disconnect_from(None, pick_connected(&list), 0),
                Err(cause) => AgentTurn::Done {
                    note: Some(AgentNote::TeardownListFailed { cause }),
                    report: AgentReport::Ended,
                },
            }
        },
        (RunState::Disconnecting { ids, at }, AgentReply::Client(ClientReply::Done(result))) => {
            let note = match result {
                Ok(_) => None,
                Err(cause) => Some(AgentNote::DisconnectFailed { id: ids[at].copy(), cause }),
            };
            assert(at < ids.len());
            disconnect_from(note, ids, at + 1)
        },
        (_, _) => vstd::pervasive::unreached(),
    }
}

} // verus!
