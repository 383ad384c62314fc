//! Bringing tunnels up and taking them down, and remembering what the user
//! wanted.

use vstd::prelude::*;

use crate::privileged::dispatch;
use crate::privileged::dispatch::{
    authorize_access, error_response, lock_error_response, not_found, DispatchOutcome,
    HandlerState, PeerOrigin,
};
use crate::privileged::store::{StoreCall, StoreReply, StoredConnection};
use crate::privileged_api::{ConnectReason, ConnectionId, DisconnectReason, PrivilegedResponse};

verus! {

// ---- up ---------------------------------------------------------------------

/// A connection to be brought up.
#[derive(Debug)]
pub struct ConnectRequest {
    pub id: ConnectionId,
    pub debug: bool,
    pub reason: ConnectReason,
}

/// What a bring-up is waiting for.
#[derive(Debug)]
pub enum ConnectState {
    Loading(PeerOrigin, ConnectRequest),
    Locking(ConnectRequest),
    Resolving(ConnectRequest),
    Clearing(ConnectionId, bool),
    Connecting,
}

impl ConnectState {
    /// `reply` is of the kind that the bring-up is waiting for.
    pub open spec fn accepts(self, reply: StoreReply) -> bool {
        match self {
            ConnectState::Loading(_, _) => reply is Record,
            ConnectState::Locking(_) => reply is Done,
            ConnectState::Resolving(_) => reply is Record,
            ConnectState::Clearing(_, _) => reply is Done,
            ConnectState::Connecting => reply is Done,
        }
    }
}

/// Whether a bring-up is to go on.
#[derive(Debug)]
pub enum ConnectIntent {
    /// It is.
    Proceed,
    /// It is, once this record is written: the user's earlier disconnect is
    /// forgotten.
    ProceedAfter(StoredConnection),
    /// It is not: the user took the connection down.
    BackOff,
}

/// Whether a bring-up is to go on, decided from the record as it stands under
/// the connection's lock. A user's wish always goes on and clears an earlier
/// disconnect; an automatic bring-up backs off from one, and never clears it. A
/// record that is gone is left for the bring-up itself to report.
pub open spec fn intent(stored: Option<StoredConnection>, reason: ConnectReason) -> ConnectIntent {
    match stored {
        Some(record) => if !record.user_disconnected {
            ConnectIntent::Proceed
        } else if reason == ConnectReason::User {
            ConnectIntent::ProceedAfter(StoredConnection { user_disconnected: false, ..record })
        } else {
            ConnectIntent::BackOff
        },
        None => ConnectIntent::Proceed,
    }
}

/// Whether a bring-up is to go on.
pub fn resolve_connect_intent(stored: Option<StoredConnection>, reason: ConnectReason) -> (result:
    ConnectIntent)
    ensures
        result == intent(stored, reason),
{
    match stored {
        None => ConnectIntent::Proceed,
        Some(record) => match reason {
            ConnectReason::User => {
                if record.user_disconnected {
                    let mut record = record;
                    record.user_disconnected = false;
                    ConnectIntent::ProceedAfter(record)
                } else {
                    ConnectIntent::Proceed
                }
            },
            ConnectReason::Reconciliation => if record.user_disconnected {
                ConnectIntent::BackOff
            } else {
                ConnectIntent::Proceed
            },
        },
    }
}

/// How a bring-up goes on from an answer. From the first answer on it may take
/// long, and goes on apart from the other clients.
pub open spec fn connect_next(state: ConnectState, reply: StoreReply) -> DispatchOutcome {
    match (state, reply) {
        (ConnectState::Loading(origin, request), StoreReply::Record(Ok(Some(record)))) =>
            if dispatch::may_access(record, origin) {
            DispatchOutcome::Pending {
                worker: HandlerState::Connect(ConnectState::Locking(request)),
                call: StoreCall::LockConnectionPatient { id: request.id },
            }
        } else {
            dispatch::denied()
        },
        (ConnectState::Loading(_, _), StoreReply::Record(Ok(None))) => dispatch::missing(),
        (ConnectState::Loading(_, _), StoreReply::Record(Err(error))) => dispatch::failed(error),
        (ConnectState::Locking(request), StoreReply::Done(Ok(_))) => DispatchOutcome::Ask {
            state: HandlerState::Connect(ConnectState::Resolving(request)),
            call: StoreCall::Load { id: request.id },
        },
        (ConnectState::Locking(_), StoreReply::Done(Err(error))) => dispatch::lock_failed(error),
        (ConnectState::Resolving(request), StoreReply::Record(Ok(stored))) => match intent(
            stored,
            request.reason,
        ) {
            ConnectIntent::Proceed => DispatchOutcome::Ask {
                state: HandlerState::Connect(ConnectState::Connecting),
                call: StoreCall::Connect { id: request.id, debug: request.debug },
            },
            ConnectIntent::ProceedAfter(record) => DispatchOutcome::Ask {
                state: HandlerState::Connect(ConnectState::Clearing(request.id, request.debug)),
                call: StoreCall::Update { record },
            },
            ConnectIntent::BackOff => DispatchOutcome::Immediate(PrivilegedResponse::Unit),
        },
        (ConnectState::Resolving(_), StoreReply::Record(Err(error))) => dispatch::failed(error),
        (ConnectState::Clearing(id, debug), StoreReply::Done(Ok(_))) => DispatchOutcome::Ask {
            state: HandlerState::Connect(ConnectState::Connecting),
            call: StoreCall::Connect { id, debug },
        },
        (ConnectState::Clearing(_, _), StoreReply::Done(Err(error))) => dispatch::failed(error),
        (ConnectState::Connecting, StoreReply::Done(Err(error))) => dispatch::failed(error),
        _ => DispatchOutcome::Immediate(PrivilegedResponse::Unit),
    }
}

/// Starts to bring a connection up.
pub fn handle_connect_connection(
    origin: PeerOrigin,
    id: ConnectionId,
    debug: bool,
    reason: ConnectReason,
) -> (outcome: DispatchOutcome)
    ensures
        outcome == (DispatchOutcome::Ask {
            state: HandlerState::Connect(
                ConnectState::Loading(origin, ConnectRequest { id, debug, reason }),
            ),
            call: StoreCall::Load { id },
        }),
        dispatch::ready(outcome),
{
    let loaded = id.copy();
    DispatchOutcome::Ask {
        state: HandlerState::Connect(
            ConnectState::Loading(origin, ConnectRequest { id, debug, reason }),
        ),
        call: StoreCall::Load { id: loaded },
    }
}

/// Goes on with a bring-up from an answer.
pub fn resume_connect(state: ConnectState, reply: StoreReply) -> (outcome: DispatchOutcome)
    requires
        state.accepts(reply),
    ensures
        outcome == connect_next(state, reply),
        dispatch::ready(outcome),
{
    match (state, reply) {
        (ConnectState::Loading(origin, request), StoreReply::Record(result)) => match result {
            Ok(Some(record)) => match authorize_access(&record, origin) {
                Some(refusal) => DispatchOutcome::Immediate(refusal),
                None => {
                    let id = request.id.copy();
                    DispatchOutcome::Pending {
                        worker: HandlerState::Connect(ConnectState::Locking(request)),
                        call: StoreCall::LockConnectionPatient { id },
                    }
                },
            },
            Ok(None) => DispatchOutcome::Immediate(not_found()),
            Err(error) => DispatchOutcome::Immediate(error_response(error)),
        },
        (ConnectState::Locking(request), StoreReply::Done(result)) => match result {
            Ok(_) => {
                let id = request.id.copy();
                DispatchOutcome::Ask {
                    state: HandlerState::Connect(ConnectState::Resolving(request)),
                    call: StoreCall::Load { id },
                }
            },
            Err(error) => DispatchOutcome::Immediate(lock_error_response(error)),
        },
        (ConnectState::Resolving(request), StoreReply::Record(result)) => match result {
            Ok(stored) => match resolve_connect_intent(stored, request.reason) {
                ConnectIntent::Proceed => DispatchOutcome::Ask {
                    state: HandlerState::Connect(ConnectState::Connecting),
                    call: StoreCall::Connect { id: request.id, debug: request.debug },
                },
                ConnectIntent::ProceedAfter(record) => DispatchOutcome::Ask {
                    state: HandlerState::Connect(ConnectState::Clearing(request.id, request.debug)),
                    call: StoreCall::Update { record },
                },
                ConnectIntent::BackOff => DispatchOutcome::Immediate(PrivilegedResponse::Unit),
            },
            Err(error) => DispatchOutcome::Immediate(error_response(error)),
        },
        (ConnectState::Clearing(id, debug), StoreReply::Done(result)) => match result {
            Ok(_) => DispatchOutcome::Ask {
                state: HandlerState::Connect(ConnectState::Connecting),
                call: StoreCall::Connect { id, debug },
            },
            Err(error) => DispatchOutcome::Immediate(error_response(error)),
        },
        (ConnectState::Connecting, StoreReply::Done(result)) => match result {
            Ok(_) => DispatchOutcome::Immediate(PrivilegedResponse::Unit),
            Err(error) => DispatchOutcome::Immediate(error_response(error)),
        },
        (_, _) => vstd::pervasive::unreached(),
    }
}

// ---- down -------------------------------------------------------------------

/// A connection to be taken down.
#[derive(Debug)]
pub struct DisconnectRequest {
    pub id: ConnectionId,
    pub reason: DisconnectReason,
}

/// What a take-down is waiting for.
#[derive(Debug)]
pub enum DisconnectState {
    Loading(PeerOrigin, DisconnectRequest),
    Locking(DisconnectRequest),
    Marking(ConnectionId),
    Marked(ConnectionId),
    Disconnecting,
}

impl DisconnectState {
    /// `reply` is of the kind that the take-down is waiting for.
    pub open spec fn accepts(self, reply: StoreReply) -> bool {
        match self {
            DisconnectState::Loading(_, _) => reply is Record,
            DisconnectState::Locking(_) => reply is Done,
            DisconnectState::Marking(_) => reply is Record,
            DisconnectState::Marked(_) => reply is Done,
            DisconnectState::Disconnecting => reply is Done,
        }
    }
}

/// The record to write before a tunnel that the user wants down is taken down,
/// if it does not say so already.
pub open spec fn marked(stored: Option<StoredConnection>) -> Option<StoredConnection> {
    match stored {
        Some(record) => if record.user_disconnected {
            None
        } else {
            Some(StoredConnection { user_disconnected: true, ..record })
        },
        None => None,
    }
}

/// The record to write before a tunnel that the user wants down is taken down.
/// It is written before, so that a take-down that half fails still leaves the
/// user's wish on record.
pub fn mark_user_disconnected(stored: Option<StoredConnection>) -> (result: Option<
    StoredConnection,
>)
    ensures
        result == marked(stored),
{
    match stored {
        None => None,
        Some(record) => {
            if record.user_disconnected {
                None
            } else {
                let mut record = record;
                record.user_disconnected = true;
                Some(record)
            }
        },
    }
}

/// The tunnel is taken down.
pub open spec fn taking_down(id: ConnectionId) -> DispatchOutcome {
    DispatchOutcome::Ask {
        state: HandlerState::Disconnect(DisconnectState::Disconnecting),
        call: StoreCall::Disconnect { id },
    }
}

/// How a take-down goes on from an answer. Only a take-down that the user
/// asked for reads and marks the record.
pub open spec fn disconnect_next(state: DisconnectState, reply: StoreReply) -> DispatchOutcome {
    match (state, reply) {
        (DisconnectState::Loading(origin, request), StoreReply::Record(Ok(Some(record)))) =>
            if dispatch::may_access(record, origin) {
            DispatchOutcome::Pending {
                worker: HandlerState::Disconnect(DisconnectState::Locking(request)),
                call: StoreCall::LockConnectionPatient { id: request.id },
            }
        } else {
            dispatch::denied()
        },
        (DisconnectState::Loading(_, _), StoreReply::Record(Ok(None))) => dispatch::missing(),
        (DisconnectState::Loading(_, _), StoreReply::Record(Err(error))) => dispatch::failed(error),
        (DisconnectState::Locking(request), StoreReply::Done(Ok(_))) => if request.reason
            == DisconnectReason::User {
            DispatchOutcome::Ask {
                state: HandlerState::Disconnect(DisconnectState::Marking(request.id)),
                call: StoreCall::Load { id: request.id },
            }
        } else {
            taking_down(request.id)
        },
        (DisconnectState::Locking(_), StoreReply::Done(Err(error))) => dispatch::lock_failed(error),
        (DisconnectState::Marking(id), StoreReply::Record(Ok(stored))) => match marked(stored) {
            Some(record) => DispatchOutcome::Ask {
                state: HandlerState::Disconnect(DisconnectState::Marked(id)),
                call: StoreCall::Update { record },
            },
            None => taking_down(id),
        },
        (DisconnectState::Marking(_), StoreReply::Record(Err(error))) => dispatch::failed(error),
        (DisconnectState::Marked(id), StoreReply::Done(Ok(_))) => taking_down(id),
        (DisconnectState::Marked(_), StoreReply::Done(Err(error))) => dispatch::failed(error),
        (DisconnectState::Disconnecting, StoreReply::Done(Err(error))) => dispatch::failed(error),
        _ => DispatchOutcome::Immediate(PrivilegedResponse::Unit),
    }
}

/// Starts to take a connection down.
pub fn handle_disconnect_connection(
    origin: PeerOrigin,
    id: ConnectionId,
    reason: DisconnectReason,
) -> (outcome: DispatchOutcome)
    ensures
        outcome == (DispatchOutcome::Ask {
            state: HandlerState::Disconnect(
                DisconnectState::Loading(origin, DisconnectRequest { id, reason }),
            ),
            call: StoreCall::Load { id },
        }),
        dispatch::ready(outcome),
{
    let loaded = id.copy();
    DispatchOutcome::Ask {
        state: HandlerState::Disconnect(
            DisconnectState::Loading(origin, DisconnectRequest { id, reason }),
        ),
        call: StoreCall::Load { id: loaded },
    }
}

fn take_down(id: ConnectionId) -> (outcome: DispatchOutcome)
    ensures
        outcome == taking_down(id),
{
    DispatchOutcome::Ask {
        state: HandlerState::Disconnect(DisconnectState::Disconnecting),
        call: StoreCall::Disconnect { id },
    }
}

/// Goes on with a take-down from an answer.
pub fn resume_disconnect(state: DisconnectState, reply: StoreReply) -> (outcome: DispatchOutcome)
    requires
        state.accepts(reply),
    ensures
        outcome == disconnect_next(state, reply),
        dispatch::ready(outcome),
{
    match (state, reply) {
        (DisconnectState::Loading(origin, request), StoreReply::Record(result)) => match result {
            Ok(Some(record)) => match authorize_access(&record, origin) {
                Some(refusal) => DispatchOutcome::Immediate(refusal),
                None => {
                    let id = request.id.copy();
                    DispatchOutcome::Pending {
                        worker: HandlerState::Disconnect(DisconnectState::Locking(request)),
                        call: StoreCall::LockConnectionPatient { id },
                    }
                },
            },
            Ok(None) => DispatchOutcome::Immediate(not_found()),
            Err(error) => DispatchOutcome::Immediate(error_response(error)),
        },
        (DisconnectState::Locking(request), StoreReply::Done(result)) => match result {
            Ok(_) => {
                if request.reason == DisconnectReason::User {
                    let id = request.id.copy();
                    DispatchOutcome::Ask {
                        state: HandlerState::Disconnect(DisconnectState::Marking(request.id)),
                        call: StoreCall::Load { id },
                    }
                } else {
                    take_down(request.id)
                }
            },
            Err(error) => DispatchOutcome::Immediate(lock_error_response(error)),
        },
        (DisconnectState::Marking(id), StoreReply::Record(result)) => match result {
            Ok(stored) => match mark_user_disconnected(stored) {
                Some(record) => DispatchOutcome::Ask {
                    state: HandlerState::Disconnect(DisconnectState::Marked(id)),
                    call: StoreCall::Update { record },
                },
                None => take_down(id),
            },
            Err(error) => DispatchOutcome::Immediate(error_response(error)),
        },
        (DisconnectState::Marked(id), StoreReply::Done(result)) => match result {
            Ok(_) => take_down(id),
            Err(error) => DispatchOutcome::Immediate(error_response(error)),
        },
        (DisconnectState::Disconnecting, StoreReply::Done(result)) => match result {
            Ok(_) => DispatchOutcome::Immediate(PrivilegedResponse::Unit),
            Err(error) => DispatchOutcome::Immediate(error_response(error)),
        },
        (_, _) => vstd::pervasive::unreached(),
    }
}

} // verus!
