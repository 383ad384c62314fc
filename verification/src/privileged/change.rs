//! Removing a stored connection, and setting its start mode.

use vstd::prelude::*;

use crate::privileged::dispatch;
use crate::privileged::dispatch::{
    admin_auth_verdict, authorize_access, busy, error_response, lock_error_response, not_found,
    require_admin_auth, DispatchOutcome, HandlerState, PeerOrigin,
};
use crate::privileged::store::{StoreCall, StoreReply, StoredConnection};
use crate::privileged_api::{
    AdminCause, BusyCause, ConnectionId, ConnectionStartMode, ErrorReply, PrivilegedResponse,
};

verus! {

// ---- removing ---------------------------------------------------------------

/// A connection to be removed.
#[derive(Debug)]
pub struct RemoveRequest {
    pub origin: PeerOrigin,
    pub id: ConnectionId,
    pub auth: Option<Vec<u8>>,
}

/// What a removal is waiting for.
#[derive(Debug)]
pub enum RemoveState {
    LockingIndex(RemoveRequest),
    Loading(RemoveRequest),
    LockingConnection(RemoveRequest),
    CheckingActive(RemoveRequest),
    Authorizing(ConnectionId),
    Removing,
}

impl RemoveState {
    /// `reply` is of the kind that the removal is waiting for.
    pub open spec fn accepts(self, reply: StoreReply) -> bool {
        match self {
            RemoveState::LockingIndex(_) => reply is Done,
            RemoveState::Loading(_) => reply is Record,
            RemoveState::LockingConnection(_) => reply is Done,
            RemoveState::CheckingActive(_) => reply is Active,
            RemoveState::Authorizing(_) => reply is Done,
            RemoveState::Removing => reply is Done,
        }
    }
}

/// How a removal goes on from an answer. The index is locked first; then the
/// record has to exist, the caller has to be allowed to touch it, the
/// connection has to be lockable and down, and only then are admin credentials
/// asked for.
pub open spec fn remove_next(state: RemoveState, reply: StoreReply) -> DispatchOutcome {
    match (state, reply) {
        (RemoveState::LockingIndex(request), StoreReply::Done(Ok(_))) => DispatchOutcome::Ask {
            state: HandlerState::Remove(RemoveState::Loading(request)),
            call: StoreCall::Load { id: request.id },
        },
        (RemoveState::LockingIndex(_), StoreReply::Done(Err(error))) => dispatch::lock_failed(error),
        (RemoveState::Loading(request), StoreReply::Record(Ok(Some(record)))) =>
            if dispatch::may_access(record, request.origin) {
            DispatchOutcome::Ask {
                state: HandlerState::Remove(RemoveState::LockingConnection(request)),
                call: StoreCall::LockConnection { id: request.id },
            }
        } else {
            dispatch::denied()
        },
        (RemoveState::Loading(_), StoreReply::Record(Ok(None))) => dispatch::missing(),
        (RemoveState::Loading(_), StoreReply::Record(Err(error))) => dispatch::failed(error),
        (RemoveState::LockingConnection(request), StoreReply::Done(Ok(_))) => DispatchOutcome::Ask {
            state: HandlerState::Remove(RemoveState::CheckingActive(request)),
            call: StoreCall::IsActive { id: request.id },
        },
        (RemoveState::LockingConnection(_), StoreReply::Done(Err(error))) => dispatch::lock_failed(error),
        (RemoveState::CheckingActive(request), StoreReply::Active(Ok(active))) => if active {
            DispatchOutcome::Immediate(PrivilegedResponse::Error(ErrorReply::Busy(BusyCause::Active)))
        } else {
            match request.auth {
                None => DispatchOutcome::Immediate(
                    PrivilegedResponse::Error(
                        ErrorReply::AuthRequired(AdminCause::RemoveConfiguration),
                    ),
                ),
                Some(external_form) => DispatchOutcome::Ask {
                    state: HandlerState::Remove(RemoveState::Authorizing(request.id)),
                    call: StoreCall::VerifyAdmin { external_form },
                },
            }
        },
        (RemoveState::CheckingActive(_), StoreReply::Active(Err(error))) => dispatch::failed(error),
        (RemoveState::Authorizing(id), StoreReply::Done(Ok(_))) => DispatchOutcome::Ask {
            state: HandlerState::Remove(RemoveState::Removing),
            call: StoreCall::Remove { id },
        },
        (RemoveState::Authorizing(_), StoreReply::Done(Err(error))) => dispatch::refused(error),
        (RemoveState::Removing, StoreReply::Done(Err(error))) => dispatch::failed(error),
        _ => DispatchOutcome::Immediate(PrivilegedResponse::Unit),
    }
}

/// Starts to remove a connection.
pub fn handle_remove_connection(
    origin: PeerOrigin,
    id: ConnectionId,
    auth_external_form: Option<Vec<u8>>,
) -> (outcome: DispatchOutcome)
    ensures
        outcome == (DispatchOutcome::Ask {
            state: HandlerState::Remove(
                RemoveState::LockingIndex(RemoveRequest { origin, id, auth: auth_external_form }),
            ),
            call: StoreCall::LockIndex,
        }),
        dispatch::ready(outcome),
{
    DispatchOutcome::Ask {
        state: HandlerState::Remove(
            RemoveState::LockingIndex(RemoveRequest { origin, id, auth: auth_external_form }),
        ),
        call: StoreCall::LockIndex,
    }
}

/// Goes on with a removal from an answer.
pub fn resume_remove(state: RemoveState, reply: StoreReply) -> (outcome: DispatchOutcome)
    requires
        state.accepts(reply),
    ensures
        outcome == remove_next(state, reply),
        dispatch::ready(outcome),
{
    match (state, reply) {
        (RemoveState::LockingIndex(request), StoreReply::Done(result)) => match result {
            Ok(_) => {
                let id = request.id.copy();
                DispatchOutcome::Ask {
                    state: HandlerState::Remove(RemoveState::Loading(request)),
                    call: StoreCall::Load { id },
                }
            },
            Err(error) => DispatchOutcome::Immediate(lock_error_response(error)),
        },
        (RemoveState::Loading(request), StoreReply::Record(result)) => match result {
            Ok(Some(record)) => match authorize_access(&record, request.origin) {
                Some(refusal) => DispatchOutcome::Immediate(refusal),
                None => {
                    let id = request.id.copy();
                    DispatchOutcome::Ask {
                        state: HandlerState::Remove(RemoveState::LockingConnection(request)),
                        call: StoreCall::LockConnection { id },
                    }
                },
            },
            Ok(None) => DispatchOutcome::Immediate(not_found()),
            Err(error) => DispatchOutcome::Immediate(error_response(error)),
        },
        (RemoveState::LockingConnection(request), StoreReply::Done(result)) => match result {
            Ok(_) => {
                let id = request.id.copy();
                DispatchOutcome::Ask {
                    state: HandlerState::Remove(RemoveState::CheckingActive(request)),
                    call: StoreCall::IsActive { id },
                }
            },
            Err(error) => DispatchOutcome::Immediate(lock_error_response(error)),
        },
        (RemoveState::CheckingActive(request), StoreReply::Active(result)) => match result {
            Ok(active) => {
                if active {
                    return DispatchOutcome::Immediate(busy(BusyCause::Active));
                }
                match require_admin_auth(request.auth, AdminCause::RemoveConfiguration) {
                    Err(response) => DispatchOutcome::Immediate(response),
                    Ok(external_form) => DispatchOutcome::Ask {
                        state: HandlerState::Remove(RemoveState::Authorizing(request.id)),
                        call: StoreCall::VerifyAdmin { external_form },
                    },
                }
            },
            Err(error) => DispatchOutcome::Immediate(error_response(error)),
        },
        (RemoveState::Authorizing(id), StoreReply::Done(result)) => {
            match admin_auth_verdict(result) {
                Ok(_) => DispatchOutcome::Ask {
                    state: HandlerState::Remove(RemoveState::Removing),
                    call: StoreCall::Remove { id },
                },
                Err(response) => DispatchOutcome::Immediate(response),
            }
        },
        (RemoveState::Removing, StoreReply::Done(result)) => match result {
            Ok(_) => DispatchOutcome::Immediate(PrivilegedResponse::Unit),
            Err(error) => DispatchOutcome::Immediate(error_response(error)),
        },
        (_, _) => vstd::pervasive::unreached(),
    }
}

// ---- start mode -------------------------------------------------------------

/// A connection whose start mode is to be set.
#[derive(Debug)]
pub struct ModeRequest {
    pub origin: PeerOrigin,
    pub id: ConnectionId,
    pub start_mode: ConnectionStartMode,
    pub auth: Option<Vec<u8>>,
}

/// What the setting of a start mode is waiting for.
#[derive(Debug)]
pub enum ModeState {
    Locking(ModeRequest),
    Loading(ModeRequest),
    Authorizing(StoredConnection, ConnectionStartMode),
    ReadingClock(StoredConnection, ConnectionStartMode),
    Updating,
}

impl ModeState {
    /// `reply` is of the kind that the setting is waiting for.
    pub open spec fn accepts(self, reply: StoreReply) -> bool {
        match self {
            ModeState::Locking(_) => reply is Done,
            ModeState::Loading(_) => reply is Record,
            ModeState::Authorizing(_, _) => reply is Done,
            ModeState::ReadingClock(_, _) => reply is Time,
            ModeState::Updating => reply is Done,
        }
    }
}

/// The record with its start mode set at time `now`. A mode that lands on
/// automatic asks for the connection to be managed again, so it also forgets
/// that the user took the connection down.
pub open spec fn mode_set(
    record: StoredConnection,
    start_mode: ConnectionStartMode,
    now: u64,
) -> StoredConnection {
    StoredConnection {
        start_mode,
        user_disconnected: record.user_disconnected && start_mode
            != ConnectionStartMode::Automatic,
        updated_at: now,
        ..record
    }
}

/// A mode past the admin gate: nothing to do where the record has it already.
pub open spec fn mode_past_gate(
    record: StoredConnection,
    start_mode: ConnectionStartMode,
) -> DispatchOutcome {
    if record.start_mode == start_mode {
        DispatchOutcome::Immediate(PrivilegedResponse::Unit)
    } else {
        DispatchOutcome::Ask {
            state: HandlerState::Mode(ModeState::ReadingClock(record, start_mode)),
            call: StoreCall::Now,
        }
    }
}

/// How the setting of a start mode goes on from an answer.
pub open spec fn mode_next(state: ModeState, reply: StoreReply) -> DispatchOutcome {
    match (state, reply) {
        (ModeState::Locking(request), StoreReply::Done(Ok(_))) => DispatchOutcome::Ask {
            state: HandlerState::Mode(ModeState::Loading(request)),
            call: StoreCall::Load { id: request.id },
        },
        (ModeState::Locking(_), StoreReply::Done(Err(error))) => dispatch::lock_failed(error),
        (ModeState::Loading(request), StoreReply::Record(Ok(Some(record)))) =>
            if !dispatch::may_access(record, request.origin) {
            dispatch::denied()
        } else if crate::privileged::add::elevates(record, request.start_mode) {
            match request.auth {
                None => DispatchOutcome::Immediate(
                    PrivilegedResponse::Error(
                        ErrorReply::AuthRequired(AdminCause::AutomaticStartup),
                    ),
                ),
                Some(external_form) => DispatchOutcome::Ask {
                    state: HandlerState::Mode(ModeState::Authorizing(record, request.start_mode)),
                    call: StoreCall::VerifyAdmin { external_form },
                },
            }
        } else {
            mode_past_gate(record, request.start_mode)
        },
        (ModeState::Loading(_), StoreReply::Record(Ok(None))) => dispatch::missing(),
        (ModeState::Loading(_), StoreReply::Record(Err(error))) => dispatch::failed(error),
        (ModeState::Authorizing(record, start_mode), StoreReply::Done(Ok(_))) => mode_past_gate(
            record,
            start_mode,
        ),
        (ModeState::Authorizing(_, _), StoreReply::Done(Err(error))) => dispatch::refused(error),
        (ModeState::ReadingClock(record, start_mode), StoreReply::Time(now)) =>
            DispatchOutcome::Ask {
            state: HandlerState::Mode(ModeState::Updating),
            call: StoreCall::Update { record: mode_set(record, start_mode, now) },
        },
        (ModeState::Updating, StoreReply::Done(Err(error))) => dispatch::failed(error),
        _ => DispatchOutcome::Immediate(PrivilegedResponse::Unit),
    }
}

/// Starts to set the start mode of a connection.
pub fn handle_set_connection_mode(
    origin: PeerOrigin,
    id: ConnectionId,
    start_mode: ConnectionStartMode,
    auth_external_form: Option<Vec<u8>>,
) -> (outcome: DispatchOutcome)
    ensures
        outcome == (DispatchOutcome::Ask {
            state: HandlerState::Mode(
                ModeState::Locking(
                    ModeRequest { origin, id, start_mode, auth: auth_external_form },
                ),
            ),
            call: StoreCall::LockConnection { id },
        }),
        dispatch::ready(outcome),
{
    let locked = id.copy();
    DispatchOutcome::Ask {
        state: HandlerState::Mode(
            ModeState::Locking(ModeRequest { origin, id, start_mode, auth: auth_external_form }),
        ),
        call: StoreCall::LockConnection { id: locked },
    }
}

fn past_gate(record: StoredConnection, start_mode: ConnectionStartMode) -> (outcome:
    DispatchOutcome)
    ensures
        outcome == mode_past_gate(record, start_mode),
{
    if record.start_mode == start_mode {
        DispatchOutcome::Immediate(PrivilegedResponse::Unit)
    } else {
        DispatchOutcome::Ask {
            state: HandlerState::Mode(ModeState::ReadingClock(record, start_mode)),
            call: StoreCall::Now,
        }
    }
}

/// Goes on with the setting of a start mode from an answer.
pub fn resume_mode(state: ModeState, reply: StoreReply) -> (outcome: DispatchOutcome)
    requires
        state.accepts(reply),
    ensures
        outcome == mode_next(state, reply),
        dispatch::ready(outcome),
{
    match (state, reply) {
        (ModeState::Locking(request), StoreReply::Done(result)) => match result {
            Ok(_) => {
                let id = request.id.copy();
                DispatchOutcome::Ask {
                    state: HandlerState::Mode(ModeState::Loading(request)),
                    call: StoreCall::Load { id },
                }
            },
            Err(error) => DispatchOutcome::Immediate(lock_error_response(error)),
        },
        (ModeState::Loading(request), StoreReply::Record(result)) => match result {
            Ok(Some(record)) => {
                if let Some(refusal) = authorize_access(&record, request.origin) {
                    return DispatchOutcome::Immediate(refusal);
                }
                let elevating: bool = record.global && record.start_mode
                    == ConnectionStartMode::Manual && request.start_mode
                    == ConnectionStartMode::Automatic;
                if elevating {
                    match require_admin_auth(request.auth, AdminCause::AutomaticStartup) {
                        Err(response) => DispatchOutcome::Immediate(response),
                        Ok(external_form) => DispatchOutcome::Ask {
                            state: HandlerState::Mode(
                                ModeState::Authorizing(record, request.start_mode),
                            ),
                            call: StoreCall::VerifyAdmin { external_form },
                        },
                    }
                } else {
                    past_gate(record, request.start_mode)
                }
            },
            Ok(None) => DispatchOutcome::Immediate(not_found()),
            Err(error) => DispatchOutcome::Immediate(error_response(error)),
        },
        (ModeState::Authorizing(record, start_mode), StoreReply::Done(result)) => {
            match admin_auth_verdict(result) {
                Ok(_) => past_gate(record, start_mode),
                Err(response) => DispatchOutcome::Immediate(response),
            }
        },
        (ModeState::ReadingClock(record, start_mode), StoreReply::Time(now)) => {
            let mut record = record;
            record.start_mode = start_mode;
            if start_mode == ConnectionStartMode::Automatic {
                record.user_disconnected = false;
            }
            record.updated_at = now;
            DispatchOutcome::Ask {
                state: HandlerState::Mode(ModeState::Updating),
                call: StoreCall::Update { record },
            }
        },
        (ModeState::Updating, StoreReply::Done(result)) => match result {
            Ok(_) => DispatchOutcome::Immediate(PrivilegedResponse::Unit),
            Err(error) => DispatchOutcome::Immediate(error_response(error)),
        },
        (_, _) => vstd::pervasive::unreached(),
    }
}

} // verus!
