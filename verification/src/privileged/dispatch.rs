//! The privileged daemon's decisions. A request is answered at once, or after
//! a number of operations on the connection store and on the machine. The
//! operations themselves are not done here: a handler names the next one and
//! what it will wait for, and goes on from the answer.

use vstd::prelude::*;

use crate::error::AppError;
use crate::privileged::add::{
    handle_add_connection, resume_add, resume_reconcile, AddRequest, AddState, ReconcileState,
};
use crate::privileged::change::{
    handle_remove_connection, handle_set_connection_mode, resume_mode, resume_remove, ModeRequest,
    ModeState, RemoveRequest, RemoveState,
};
use crate::privileged::control::ControlState;
use crate::privileged::query::{
    handle_get_connection, handle_interface_query, handle_list_connections, resume_get,
    resume_interface, resume_list, GetState, InterfaceQuery, InterfaceState, ListState,
};
use crate::privileged::store::{StoreCall, StoreReply, StoredConnection};
use crate::privileged::tunnel::{
    handle_connect_connection, handle_disconnect_connection, resume_connect, resume_disconnect,
    ConnectRequest, ConnectState, DisconnectRequest, DisconnectState,
};
use crate::privileged_api::{
    AdminCause, BusyCause, ConnectionScope, Denial, ErrorReply, PrivilegedRequest,
    PrivilegedResponse,
};
use crate::text::parse_u32;

verus! {

// ---- callers ----------------------------------------------------------------

/// Identifies the caller for authorization purposes. `Socket` carries the uid
/// that the operating system vouches for; `Stdio` means that the caller has
/// already proven to be root by reaching this process at all.
#[derive(Debug, Clone, Copy)]
pub enum PeerOrigin {
    Socket(u32),
    Stdio,
}

impl PeerOrigin {
    /// The uid that the caller acts with.
    pub open spec fn uid_of(self) -> u32 {
        match self {
            PeerOrigin::Socket(uid) => uid,
            PeerOrigin::Stdio => 0,
        }
    }

    /// The caller is root.
    pub open spec fn root(self) -> bool {
        self.uid_of() == 0
    }

    /// The user that a per-user connection of this caller belongs to. Over
    /// stdio that is the user who ran `sudo`, as far as `sudo_uid`, the value
    /// of `SUDO_UID`, names one, and root otherwise.
    pub open spec fn owner(self, sudo_uid: Option<Seq<char>>) -> u32 {
        match self {
            PeerOrigin::Socket(uid) => uid,
            PeerOrigin::Stdio => match sudo_uid {
                Some(text) => match crate::text::parsed_u32(text) {
                    Some(uid) => uid,
                    None => 0,
                },
                None => 0,
            },
        }
    }

    /// The uid that the caller acts with.
    pub fn uid(self) -> (uid: u32)
        ensures
            uid == self.uid_of(),
    {
        match self {
            PeerOrigin::Socket(uid) => uid,
            PeerOrigin::Stdio => 0,
        }
    }

    /// Whether the caller is root.
    pub fn is_root(self) -> (result: bool)
        ensures
            result == self.root(),
    {
        self.uid() == 0
    }

    /// The user that a per-user connection of this caller belongs to. This only
    /// decides in which user's list a connection stands, and guards nothing: a
    /// caller that is root could claim any user.
    pub fn attributed_owner_uid(self, sudo_uid: &Option<String>) -> (uid: u32)
        ensures
            uid == self.owner(text_in(*sudo_uid)),
    {
        match self {
            PeerOrigin::Socket(uid) => uid,
            PeerOrigin::Stdio => match sudo_uid {
                Some(text) => match parse_u32(text.as_str()) {
                    Some(uid) => uid,
                    None => 0,
                },
                None => 0,
            },
        }
    }
}

/// The characters of an optional text.
pub open spec fn text_in(text: Option<String>) -> Option<Seq<char>> {
    match text {
        Some(text) => Some(text@),
        None => None,
    }
}

// ---- outcomes ---------------------------------------------------------------

/// What comes next for a request.
#[derive(Debug)]
pub enum DispatchOutcome {
    /// The request is answered.
    Immediate(PrivilegedResponse),
    /// `call` is to be carried out, and its answer handed to `resume`.
    Ask { state: HandlerState, call: StoreCall },
    /// As `Ask`, but from here on the request may take long: it is to go on
    /// apart from the loop that serves the other clients.
    Pending { worker: HandlerState, call: StoreCall },
}

/// What a request is waiting for.
#[derive(Debug)]
pub enum HandlerState {
    Add(AddState),
    Reconcile(ReconcileState),
    Remove(RemoveState),
    Connect(ConnectState),
    Disconnect(DisconnectState),
    Mode(ModeState),
    List(ListState),
    Get(GetState),
    Interface(InterfaceState),
}

impl HandlerState {
    /// `reply` is of the kind that the request is waiting for.
    pub open spec fn accepts(self, reply: StoreReply) -> bool {
        match self {
            HandlerState::Add(state) => state.accepts(reply),
            HandlerState::Reconcile(state) => state.accepts(reply),
            HandlerState::Remove(state) => state.accepts(reply),
            HandlerState::Connect(state) => state.accepts(reply),
            HandlerState::Disconnect(state) => state.accepts(reply),
            HandlerState::Mode(state) => state.accepts(reply),
            HandlerState::List(state) => state.accepts(reply),
            HandlerState::Get(state) => state.accepts(reply),
            HandlerState::Interface(state) => state.accepts(reply),
        }
    }
}

/// Whatever answers the call of an outcome is accepted by its state.
pub open spec fn ready(outcome: DispatchOutcome) -> bool {
    match outcome {
        DispatchOutcome::Immediate(_) => true,
        DispatchOutcome::Ask { state, call } => forall|reply: StoreReply|
            crate::privileged::store::fits(call, reply) ==> state.accepts(reply),
        DispatchOutcome::Pending { worker, call } => forall|reply: StoreReply|
            crate::privileged::store::fits(call, reply) ==> worker.accepts(reply),
    }
}

// ---- answers ----------------------------------------------------------------

/// The answer for a connection that the store does not have.
pub fn not_found() -> (response: PrivilegedResponse)
    ensures
        response == PrivilegedResponse::Error(ErrorReply::NotFound),
{
    PrivilegedResponse::Error(ErrorReply::NotFound)
}

/// The answer to a caller who may not do something.
pub fn auth_denied(denial: Denial) -> (response: PrivilegedResponse)
    ensures
        response == PrivilegedResponse::Error(ErrorReply::Denied(denial)),
{
    PrivilegedResponse::Error(ErrorReply::Denied(denial))
}

/// The answer to a caller who has to present admin credentials first.
pub fn auth_required(cause: AdminCause) -> (response: PrivilegedResponse)
    ensures
        response == PrivilegedResponse::Error(ErrorReply::AuthRequired(cause)),
{
    PrivilegedResponse::Error(ErrorReply::AuthRequired(cause))
}

/// The answer for a connection that cannot be touched right now.
pub fn busy(cause: BusyCause) -> (response: PrivilegedResponse)
    ensures
        response == PrivilegedResponse::Error(ErrorReply::Busy(cause)),
{
    PrivilegedResponse::Error(ErrorReply::Busy(cause))
}

/// The answer for an error of the store or of a tunnel.
pub open spec fn error_answer(error: AppError) -> PrivilegedResponse {
    match error {
        AppError::Auth(message) => PrivilegedResponse::Error(
            ErrorReply::Denied(Denial::Refused(message)),
        ),
        AppError::WireGuard(message) => PrivilegedResponse::Error(ErrorReply::WireGuard(message)),
        other => PrivilegedResponse::Error(ErrorReply::Other(other)),
    }
}

/// The answer for an error of the store or of a tunnel.
pub fn error_response(error: AppError) -> (response: PrivilegedResponse)
    ensures
        response == error_answer(error),
{
    match error {
        AppError::Auth(message) => auth_denied(Denial::Refused(message)),
        AppError::WireGuard(message) => PrivilegedResponse::Error(ErrorReply::WireGuard(message)),
        other => PrivilegedResponse::Error(ErrorReply::Other(other)),
    }
}

/// The answer for a lock that could not be taken.
pub open spec fn lock_error_answer(error: AppError) -> PrivilegedResponse {
    match error {
        AppError::Io { would_block: true, message: _ } => PrivilegedResponse::Error(
            ErrorReply::Busy(BusyCause::InProgress),
        ),
        other => error_answer(other),
    }
}

/// The answer for a lock that could not be taken.
pub fn lock_error_response(error: AppError) -> (response: PrivilegedResponse)
    ensures
        response == lock_error_answer(error),
{
    match error {
        AppError::Io { would_block: true, message: _ } => busy(BusyCause::InProgress),
        other => error_response(other),
    }
}

// ---- authorization ----------------------------------------------------------

/// The caller may read and change the record: root may, and the owner of a
/// record that is not global.
pub open spec fn may_access(record: StoredConnection, origin: PeerOrigin) -> bool {
    origin.root() || (!record.global && record.owner_uid == Some(origin.uid_of()))
}

/// The refusal that the caller gets for the record, if any.
pub fn authorize_access(record: &StoredConnection, origin: PeerOrigin) -> (refusal: Option<
    PrivilegedResponse,
>)
    ensures
        refusal == (if may_access(*record, origin) {
            None
        } else {
            Some(PrivilegedResponse::Error(ErrorReply::Denied(Denial::NotOwner)))
        }),
{
    let authorized: bool = if record.global {
        origin.is_root()
    } else {
        origin.is_root() || match record.owner_uid {
            Some(owner) => owner == origin.uid(),
            None => false,
        }
    };
    if authorized {
        None
    } else {
        Some(auth_denied(Denial::NotOwner))
    }
}

/// The answer for admin credentials that did not verify.
pub open spec fn refused_credentials(error: AppError) -> PrivilegedResponse {
    match error {
        AppError::Auth(message) => PrivilegedResponse::Error(
            ErrorReply::Denied(Denial::Refused(message)),
        ),
        other => PrivilegedResponse::Error(ErrorReply::Denied(Denial::Failed(other))),
    }
}

/// The answer for an error of the store or of a tunnel.
pub open spec fn failed(error: AppError) -> DispatchOutcome {
    DispatchOutcome::Immediate(error_answer(error))
}

/// The answer for a lock that could not be taken.
pub open spec fn lock_failed(error: AppError) -> DispatchOutcome {
    DispatchOutcome::Immediate(lock_error_answer(error))
}

/// The answer for admin credentials that did not verify.
pub open spec fn refused(error: AppError) -> DispatchOutcome {
    DispatchOutcome::Immediate(refused_credentials(error))
}

/// The answer for a connection that the store does not have.
pub open spec fn missing() -> DispatchOutcome {
    DispatchOutcome::Immediate(PrivilegedResponse::Error(ErrorReply::NotFound))
}

/// The answer to a caller who may not touch the connection.
pub open spec fn denied() -> DispatchOutcome {
    DispatchOutcome::Immediate(PrivilegedResponse::Error(ErrorReply::Denied(Denial::NotOwner)))
}

/// The first half of the admin gate: the credentials to verify, or the answer
/// to a caller who presented none.
pub fn require_admin_auth(form: Option<Vec<u8>>, cause: AdminCause) -> (result: Result<
    Vec<u8>,
    PrivilegedResponse,
>)
    ensures
        result == (match form {
            Some(bytes) => Ok::<Vec<u8>, PrivilegedResponse>(bytes),
            None => Err(PrivilegedResponse::Error(ErrorReply::AuthRequired(cause))),
        }),
{
    match form {
        None => Err(auth_required(cause)),
        Some(bytes) => Ok(bytes),
    }
}

/// The second half of the admin gate: passed, or the answer to a caller whose
/// credentials did not verify.
pub fn admin_auth_verdict(verified: Result<(), AppError>) -> (result: Result<
    (),
    PrivilegedResponse,
>)
    ensures
        result == (match verified {
            Ok(_) => Ok::<(), PrivilegedResponse>(()),
            Err(error) => Err(refused_credentials(error)),
        }),
{
    match verified {
        Ok(_) => Ok(()),
        Err(AppError::Auth(message)) => Err(auth_denied(Denial::Refused(message))),
        Err(other) => Err(auth_denied(Denial::Failed(other))),
    }
}

// ---- requests ---------------------------------------------------------------

/// How a request begins that is about stored connections or interfaces: what is
/// asked first, or the answer at once to a caller who may not ask.
pub open spec fn begun(
    request: PrivilegedRequest,
    origin: PeerOrigin,
    sudo_uid: Option<Seq<char>>,
    outcome: DispatchOutcome,
) -> bool {
    match request {
        PrivilegedRequest::WgShow { interface } => outcome
            == crate::privileged::query::interface_start(
            origin,
            InterfaceQuery::Report,
            interface,
        ),
        PrivilegedRequest::NetworkOverview { interface } => outcome
            == crate::privileged::query::interface_start(
            origin,
            InterfaceQuery::Overview,
            interface,
        ),
        PrivilegedRequest::InterfaceActive { interface } => outcome
            == crate::privileged::query::interface_start(
            origin,
            InterfaceQuery::Socket,
            interface,
        ),
        PrivilegedRequest::AddConnection {
            conf_text,
            global,
            start_mode,
            name,
            mtu_override,
            force,
            auth_external_form,
        } => if global && !origin.root() {
            outcome == DispatchOutcome::Immediate(
                PrivilegedResponse::Error(ErrorReply::Denied(Denial::GlobalAddNeedsRoot)),
            )
        } else {
            &&& outcome matches DispatchOutcome::Ask {
                state: HandlerState::Add(AddState::Parsing(started)),
                call: StoreCall::ParseConfig { conf_text: parsed_text },
            }
            &&& started.conf_text@ == crate::privileged::add::effective_conf(
                conf_text@,
                mtu_override,
            )
            &&& parsed_text == started.conf_text
            &&& started == (AddRequest {
                global,
                owner_uid: if global {
                    None
                } else {
                    Some(origin.owner(sudo_uid))
                },
                start_mode,
                name,
                force,
                auth: auth_external_form,
                conf_text: started.conf_text,
            })
        },
        PrivilegedRequest::RemoveConnection { id, auth_external_form } => outcome == (
        DispatchOutcome::Ask {
            state: HandlerState::Remove(
                RemoveState::LockingIndex(RemoveRequest { origin, id, auth: auth_external_form }),
            ),
            call: StoreCall::LockIndex,
        }),
        PrivilegedRequest::ConnectConnection { id, debug, reason } => outcome == (
        DispatchOutcome::Ask {
            state: HandlerState::Connect(
                ConnectState::Loading(origin, ConnectRequest { id, debug, reason }),
            ),
            call: StoreCall::Load { id },
        }),
        PrivilegedRequest::DisconnectConnection { id, reason } => outcome == (DispatchOutcome::Ask {
            state: HandlerState::Disconnect(
                DisconnectState::Loading(origin, DisconnectRequest { id, reason }),
            ),
            call: StoreCall::Load { id },
        }),
        PrivilegedRequest::SetConnectionMode { id, start_mode, auth_external_form } => outcome == (
        DispatchOutcome::Ask {
            state: HandlerState::Mode(
                ModeState::Locking(ModeRequest { origin, id, start_mode, auth: auth_external_form }),
            ),
            call: StoreCall::LockConnection { id },
        }),
        PrivilegedRequest::ListConnections { scope } => outcome == (if scope
            == ConnectionScope::All && !origin.root() {
            DispatchOutcome::Immediate(
                PrivilegedResponse::Error(ErrorReply::Denied(Denial::ListAllNeedsRoot)),
            )
        } else {
            DispatchOutcome::Ask {
                state: HandlerState::List(ListState::Loading(origin, scope)),
                call: StoreCall::LoadAll,
            }
        }),
        PrivilegedRequest::GetConnection { id } => outcome == (DispatchOutcome::Ask {
            state: HandlerState::Get(GetState::Loading(origin, id)),
            call: StoreCall::Load { id },
        }),
        _ => false,
    }
}

/// The request is about the daemon itself, not about connections.
pub open spec fn about_daemon(request: PrivilegedRequest) -> bool {
    request is LeaseAcquire || request is LeaseRelease || request is ShutdownIfIdle
}

/// How a request about the daemon itself changes it, and the answer. `stale` are
/// the tokens of leases whose holders are gone.
pub open spec fn controlled(
    request: PrivilegedRequest,
    before: ControlState,
    after: ControlState,
    stale: Seq<String>,
    outcome: DispatchOutcome,
) -> bool {
    let held = crate::privileged::control::tokens(before.leases@);
    let gone = crate::privileged::control::tokens(stale);
    let left = crate::privileged::control::tokens(after.leases@);
    match request {
        PrivilegedRequest::LeaseAcquire { token } => {
            &&& left == held.difference(gone).insert(token@)
            &&& after.allow_shutdown == before.allow_shutdown
            &&& after.shutdown_requested == before.shutdown_requested
            &&& outcome == DispatchOutcome::Immediate(PrivilegedResponse::Unit)
        },
        PrivilegedRequest::LeaseRelease { token } => {
            &&& left == held.remove(token@).difference(gone)
            &&& after.allow_shutdown == before.allow_shutdown
            &&& after.shutdown_requested == before.shutdown_requested
            &&& outcome == DispatchOutcome::Immediate(PrivilegedResponse::Unit)
        },
        PrivilegedRequest::ShutdownIfIdle => if before.allow_shutdown {
            &&& left == held.difference(gone)
            &&& after.allow_shutdown
            &&& after.shutdown_requested
            &&& outcome == DispatchOutcome::Immediate(
                PrivilegedResponse::Bool(left == Set::<Seq<char>>::empty()),
            )
        } else {
            &&& after == before
            &&& outcome == DispatchOutcome::Immediate(
                PrivilegedResponse::Error(ErrorReply::ShutdownDisabled),
            )
        },
        _ => false,
    }
}

/// Takes a request up. `sudo_uid` is the value of `SUDO_UID`, and `stale` are the
/// tokens of leases whose holders are gone.
pub fn dispatch(
    request: PrivilegedRequest,
    control_state: &mut ControlState,
    origin: PeerOrigin,
    sudo_uid: &Option<String>,
    stale: &Vec<String>,
) -> (outcome: DispatchOutcome)
    requires
        old(control_state).wf(),
    ensures
        final(control_state).wf(),
        about_daemon(request) ==> controlled(
            request,
            *old(control_state),
            *final(control_state),
            stale@,
            outcome,
        ),
        !about_daemon(request) ==> *final(control_state) == *old(control_state) && begun(
            request,
            origin,
            text_in(*sudo_uid),
            outcome,
        ),
        ready(outcome),
{
    match request {
        PrivilegedRequest::LeaseAcquire { token } => {
            control_state.prune_stale_leases(stale);
            control_state.acquire(token);
            DispatchOutcome::Immediate(PrivilegedResponse::Unit)
        },
        PrivilegedRequest::LeaseRelease { token } => {
            control_state.release(token.as_str());
            control_state.prune_stale_leases(stale);
            DispatchOutcome::Immediate(PrivilegedResponse::Unit)
        },
        PrivilegedRequest::ShutdownIfIdle => {
            if !control_state.allow_shutdown {
                return DispatchOutcome::Immediate(
                    PrivilegedResponse::Error(ErrorReply::ShutdownDisabled),
                );
            }
            control_state.shutdown_requested = true;
            control_state.prune_stale_leases(stale);
            let idle: bool = control_state.is_idle();
            DispatchOutcome::Immediate(PrivilegedResponse::Bool(idle))
        },
        PrivilegedRequest::WgShow { interface } => handle_interface_query(
            origin,
            InterfaceQuery::Report,
            interface,
        ),
        PrivilegedRequest::NetworkOverview { interface } => handle_interface_query(
            origin,
            InterfaceQuery::Overview,
            interface,
        ),
        PrivilegedRequest::InterfaceActive { interface } => handle_interface_query(
            origin,
            InterfaceQuery::Socket,
            interface,
        ),
        PrivilegedRequest::AddConnection {
            conf_text,
            global,
            start_mode,
            name,
            mtu_override,
            force,
            auth_external_form,
        } => handle_add_connection(
            origin,
            conf_text,
            global,
            start_mode,
            name,
            mtu_override,
            force,
            auth_external_form,
            sudo_uid,
        ),
        PrivilegedRequest::RemoveConnection { id, auth_external_form } => handle_remove_connection(
            origin,
            id,
            auth_external_form,
        ),
        PrivilegedRequest::ConnectConnection { id, debug, reason } => handle_connect_connection(
            origin,
            id,
            debug,
            reason,
        ),
        PrivilegedRequest::DisconnectConnection { id, reason } => handle_disconnect_connection(
            origin,
            id,
            reason,
        ),
        PrivilegedRequest::SetConnectionMode { id, start_mode, auth_external_form } =>
            handle_set_connection_mode(origin, id, start_mode, auth_external_form),
        PrivilegedRequest::ListConnections { scope } => handle_list_connections(origin, scope),
        PrivilegedRequest::GetConnection { id } => handle_get_connection(origin, id),
    }
}

/// How a request goes on from an answer.
pub open spec fn stepped(state: HandlerState, reply: StoreReply, outcome: DispatchOutcome) -> bool {
    match state {
        HandlerState::Add(state) => outcome == crate::privileged::add::add_next(state, reply),
        HandlerState::Reconcile(state) => outcome == crate::privileged::add::reconcile_next(
            state,
            reply,
        ),
        HandlerState::Remove(state) => outcome == crate::privileged::change::remove_next(
            state,
            reply,
        ),
        HandlerState::Connect(state) => outcome == crate::privileged::tunnel::connect_next(
            state,
            reply,
        ),
        HandlerState::Disconnect(state) => outcome == crate::privileged::tunnel::disconnect_next(
            state,
            reply,
        ),
        HandlerState::Mode(state) => outcome == crate::privileged::change::mode_next(state, reply),
        HandlerState::List(state) => crate::privileged::query::list_stepped(state, reply, outcome),
        HandlerState::Get(state) => crate::privileged::query::get_stepped(state, reply, outcome),
        HandlerState::Interface(state) => crate::privileged::query::interface_stepped(
            state,
            reply,
            outcome,
        ),
    }
}

/// Goes on with a request from the answer it was waiting for.
pub fn resume(state: HandlerState, reply: StoreReply) -> (outcome: DispatchOutcome)
    requires
        state.accepts(reply),
    ensures
        stepped(state, reply, outcome),
        ready(outcome),
{
    match state {
        HandlerState::Add(state) => resume_add(state, reply),
        HandlerState::Reconcile(state) => resume_reconcile(state, reply),
        HandlerState::Remove(state) => resume_remove(state, reply),
        HandlerState::Connect(state) => resume_connect(state, reply),
        HandlerState::Disconnect(state) => resume_disconnect(state, reply),
        HandlerState::Mode(state) => resume_mode(state, reply),
        HandlerState::List(state) => resume_list(state, reply),
        HandlerState::Get(state) => resume_get(state, reply),
        HandlerState::Interface(state) => resume_interface(state, reply),
    }
}

} // verus!
