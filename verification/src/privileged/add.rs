//! Adding a connection. New or changed configuration content enters the store
//! only here, and only behind the admin gate; content that is stored already
//! may still get a new name or start mode.

use vstd::prelude::*;

use crate::privileged::dispatch;
use crate::privileged::dispatch::{
    admin_auth_verdict, auth_denied, error_response, lock_error_response, require_admin_auth,
    DispatchOutcome, HandlerState, PeerOrigin,
};
use crate::privileged::mtu::apply_mtu_override_to_conf_text;
use crate::privileged::store::{ParsedConfig, StoreCall, StoreReply, StoredConnection};
use crate::privileged_api::{
    AdminCause, ConnectionId, ConnectionStartMode, Denial, ErrorReply, PrivilegedResponse,
};

verus! {

/// A connection to be added, as its caller described it.
#[derive(Debug)]
pub struct AddRequest {
    pub global: bool,
    pub owner_uid: Option<u32>,
    pub start_mode: ConnectionStartMode,
    pub name: Option<String>,
    pub force: bool,
    pub auth: Option<Vec<u8>>,
    pub conf_text: String,
}

/// A connection that is going to be stored.
#[derive(Debug)]
pub struct NewConnection {
    pub global: bool,
    pub owner_uid: Option<u32>,
    pub start_mode: ConnectionStartMode,
    pub name: Option<String>,
    pub raw_conf: String,
    pub parsed: ParsedConfig,
}

/// What the addition of a connection is waiting for.
#[derive(Debug)]
pub enum AddState {
    Parsing(AddRequest),
    LockingIndex(AddRequest, ParsedConfig),
    FindingIdentity(AddRequest, ParsedConfig),
    FindingName(AddRequest, ParsedConfig),
    Authorizing(NewConnection),
    Allocating(NewConnection),
    ReadingClock(NewConnection, ConnectionId, String),
    Creating(ConnectionId),
}

impl AddState {
    /// `reply` is of the kind that the addition is waiting for.
    pub open spec fn accepts(self, reply: StoreReply) -> bool {
        match self {
            AddState::Parsing(_) => reply is Parsed,
            AddState::LockingIndex(_, _) => reply is Done,
            AddState::FindingIdentity(_, _) => reply is Record,
            AddState::FindingName(request, _) => reply is Record && request.name is Some,
            AddState::Authorizing(_) => reply is Done,
            AddState::Allocating(_) => reply is Allocated,
            AddState::ReadingClock(_, _, _) => reply is Time,
            AddState::Creating(_) => reply is Done,
        }
    }
}

// ---- the decisions, stated --------------------------------------------------

/// The answer that a name is taken.
pub open spec fn name_in_use(name: String, existing: ConnectionId) -> DispatchOutcome {
    DispatchOutcome::Immediate(
        PrivilegedResponse::Error(ErrorReply::NameInUse { name, existing }),
    )
}

/// The text that is parsed and stored for an addition.
pub open spec fn effective_conf(conf_text: Seq<char>, mtu_override: Option<u16>) -> Seq<char> {
    match mtu_override {
        Some(mtu) => crate::privileged::mtu::mtu_applied(conf_text, mtu),
        None => conf_text,
    }
}

/// The connection that a request stores once its content is parsed.
pub open spec fn new_connection(request: AddRequest, parsed: ParsedConfig) -> NewConnection {
    NewConnection {
        global: request.global,
        owner_uid: request.owner_uid,
        start_mode: request.start_mode,
        name: request.name,
        raw_conf: request.conf_text,
        parsed,
    }
}

/// The record that a new connection becomes.
pub open spec fn new_record(
    new: NewConnection,
    id: ConnectionId,
    interface: String,
    now: u64,
) -> StoredConnection {
    StoredConnection {
        id,
        fingerprint: new.parsed.fingerprint,
        global: new.global,
        owner_uid: new.owner_uid,
        start_mode: new.start_mode,
        name: new.name,
        config: new.parsed.config,
        raw_conf: new.raw_conf,
        interface,
        created_at: now,
        updated_at: now,
        user_disconnected: false,
    }
}

/// New content is at the admin gate.
pub open spec fn at_admin_gate(request: AddRequest, parsed: ParsedConfig) -> DispatchOutcome {
    match request.auth {
        None => DispatchOutcome::Immediate(
            PrivilegedResponse::Error(ErrorReply::AuthRequired(AdminCause::StoreConfiguration)),
        ),
        Some(external_form) => DispatchOutcome::Ask {
            state: HandlerState::Add(AddState::Authorizing(new_connection(request, parsed))),
            call: StoreCall::VerifyAdmin { external_form },
        },
    }
}

/// How an addition goes on from an answer.
pub open spec fn add_next(state: AddState, reply: StoreReply) -> DispatchOutcome {
    match (state, reply) {
        (AddState::Parsing(request), StoreReply::Parsed(Ok(parsed))) => DispatchOutcome::Ask {
            state: HandlerState::Add(AddState::LockingIndex(request, parsed)),
            call: StoreCall::LockIndex,
        },
        (AddState::LockingIndex(request, parsed), StoreReply::Done(Ok(_))) => DispatchOutcome::Ask {
            state: HandlerState::Add(AddState::FindingIdentity(request, parsed)),
            call: StoreCall::FindByIdentity {
                fingerprint: parsed.fingerprint,
                global: request.global,
                owner_uid: request.owner_uid,
            },
        },
        (
            AddState::FindingIdentity(request, _),
            StoreReply::Record(Ok(Some(existing))),
        ) => reconcile_start(
            existing,
            request.name,
            request.start_mode,
            request.force,
            request.auth,
        ),
        (AddState::FindingIdentity(request, parsed), StoreReply::Record(Ok(None))) => {
            match request.name {
                Some(name) => if request.force {
                    at_admin_gate(request, parsed)
                } else {
                    DispatchOutcome::Ask {
                        state: HandlerState::Add(AddState::FindingName(request, parsed)),
                        call: StoreCall::FindByName {
                            name,
                            global: request.global,
                            owner_uid: request.owner_uid,
                        },
                    }
                },
                None => at_admin_gate(request, parsed),
            }
        },
        (AddState::FindingName(request, _), StoreReply::Record(Ok(Some(existing)))) => name_in_use(
            request.name->0,
            existing.id,
        ),
        (AddState::FindingName(request, parsed), StoreReply::Record(Ok(None))) => at_admin_gate(
            request,
            parsed,
        ),
        (AddState::Authorizing(new), StoreReply::Done(Ok(_))) => DispatchOutcome::Ask {
            state: HandlerState::Add(AddState::Allocating(new)),
            call: StoreCall::AllocateInterface,
        },
        (AddState::Allocating(new), StoreReply::Allocated(Ok((id, interface)))) =>
            DispatchOutcome::Ask {
            state: HandlerState::Add(AddState::ReadingClock(new, id, interface)),
            call: StoreCall::Now,
        },
        (AddState::ReadingClock(new, id, interface), StoreReply::Time(now)) =>
            DispatchOutcome::Ask {
            state: HandlerState::Add(AddState::Creating(id)),
            call: StoreCall::Create { record: new_record(new, id, interface, now) },
        },
        (AddState::Creating(id), StoreReply::Done(Ok(_))) => DispatchOutcome::Immediate(
            PrivilegedResponse::ConnectionId(id),
        ),
        (state, reply) => DispatchOutcome::Immediate(add_failed(state, reply)),
    }
}

/// The answer to an addition in which an operation failed.
pub open spec fn add_failed(state: AddState, reply: StoreReply) -> PrivilegedResponse {
    match (state, reply) {
        (AddState::LockingIndex(_, _), StoreReply::Done(Err(error))) =>
            dispatch::lock_error_answer(error),
        (AddState::Authorizing(_), StoreReply::Done(Err(error))) =>
            dispatch::refused_credentials(error),
        (_, StoreReply::Parsed(Err(error))) => dispatch::error_answer(error),
        (_, StoreReply::Record(Err(error))) => dispatch::error_answer(error),
        (_, StoreReply::Allocated(Err(error))) => dispatch::error_answer(error),
        (_, StoreReply::Done(Err(error))) => dispatch::error_answer(error),
        _ => PrivilegedResponse::Unit,
    }
}

// ---- the decisions, made ----------------------------------------------------

/// Starts to add a connection. `sudo_uid` is the value of `SUDO_UID`, which
/// matters to a caller over stdio only.
pub fn handle_add_connection(
    origin: PeerOrigin,
    conf_text: String,
    global: bool,
    start_mode: ConnectionStartMode,
    name: Option<String>,
    mtu_override: Option<u16>,
    force: bool,
    auth_external_form: Option<Vec<u8>>,
    sudo_uid: &Option<String>,
) -> (outcome: DispatchOutcome)
    ensures
        global && !origin.root() ==> outcome == DispatchOutcome::Immediate(
            PrivilegedResponse::Error(ErrorReply::Denied(Denial::GlobalAddNeedsRoot)),
        ),
        !global || origin.root() ==> {
            &&& outcome matches DispatchOutcome::Ask {
                state: HandlerState::Add(AddState::Parsing(request)),
                call: StoreCall::ParseConfig { conf_text: parsed_text },
            }
            &&& parsed_text == request.conf_text
            &&& request == (AddRequest {
                global,
                owner_uid: if global {
                    None
                } else {
                    Some(origin.owner(dispatch::text_in(*sudo_uid)))
                },
                start_mode,
                name,
                force,
                auth: auth_external_form,
                conf_text: request.conf_text,
            })
            &&& request.conf_text@ == effective_conf(conf_text@, mtu_override)
        },
        dispatch::ready(outcome),
{
    if global && !origin.is_root() {
        return DispatchOutcome::Immediate(auth_denied(Denial::GlobalAddNeedsRoot));
    }
    let owner_uid: Option<u32> = if global {
        None
    } else {
        Some(origin.attributed_owner_uid(sudo_uid))
    };
    let conf_text = match mtu_override {
        Some(mtu) => apply_mtu_override_to_conf_text(conf_text.as_str(), mtu),
        None => conf_text,
    };
    let parsed_text = conf_text.clone();
    DispatchOutcome::Ask {
        state: HandlerState::Add(
            AddState::Parsing(
                AddRequest {
                    global,
                    owner_uid,
                    start_mode,
                    name,
                    force,
                    auth: auth_external_form,
                    conf_text,
                },
            ),
        ),
        call: StoreCall::ParseConfig { conf_text: parsed_text },
    }
}

fn to_admin_gate(request: AddRequest, parsed: ParsedConfig) -> (outcome: DispatchOutcome)
    ensures
        outcome == at_admin_gate(request, parsed),
{
    match require_admin_auth(request.auth, AdminCause::StoreConfiguration) {
        Err(response) => DispatchOutcome::Immediate(response),
        Ok(external_form) => DispatchOutcome::Ask {
            state: HandlerState::Add(
                AddState::Authorizing(
                    NewConnection {
                        global: request.global,
                        owner_uid: request.owner_uid,
                        start_mode: request.start_mode,
                        name: request.name,
                        raw_conf: request.conf_text,
                        parsed,
                    },
                ),
            ),
            call: StoreCall::VerifyAdmin { external_form },
        },
    }
}

/// Goes on with an addition from an answer.
pub fn resume_add(state: AddState, reply: StoreReply) -> (outcome: DispatchOutcome)
    requires
        state.accepts(reply),
    ensures
        outcome == add_next(state, reply),
        dispatch::ready(outcome),
{
    match (state, reply) {
        (AddState::Parsing(request), StoreReply::Parsed(result)) => match result {
            Ok(parsed) => DispatchOutcome::Ask {
                state: HandlerState::Add(AddState::LockingIndex(request, parsed)),
                call: StoreCall::LockIndex,
            },
            Err(error) => DispatchOutcome::Immediate(error_response(error)),
        },
        (AddState::LockingIndex(request, parsed), StoreReply::Done(result)) => match result {
            Ok(_) => {
                let fingerprint = parsed.fingerprint.clone();
                let global: bool = request.global;
                let owner_uid: Option<u32> = request.owner_uid;
                DispatchOutcome::Ask {
                    state: HandlerState::Add(AddState::FindingIdentity(request, parsed)),
                    call: StoreCall::FindByIdentity { fingerprint, global, owner_uid },
                }
            },
            Err(error) => DispatchOutcome::Immediate(lock_error_response(error)),
        },
        (AddState::FindingIdentity(request, parsed), StoreReply::Record(result)) => match result {
            Ok(Some(existing)) => reconcile_existing_add(
                existing,
                request.name,
                request.start_mode,
                request.force,
                request.auth,
            ),
            Ok(None) => {
                let wanted: Option<String> = match &request.name {
                    Some(name) => if request.force {
                        None
                    } else {
                        Some(name.clone())
                    },
                    None => None,
                };
                match wanted {
                    Some(name) => {
                        let global: bool = request.global;
                        let owner_uid: Option<u32> = request.owner_uid;
                        DispatchOutcome::Ask {
                            state: HandlerState::Add(AddState::FindingName(request, parsed)),
                            call: StoreCall::FindByName { name, global, owner_uid },
                        }
                    },
                    None => to_admin_gate(request, parsed),
                }
            },
            Err(error) => DispatchOutcome::Immediate(error_response(error)),
        },
        (AddState::FindingName(request, parsed), StoreReply::Record(result)) => match result {
            Ok(Some(existing)) => match request.name {
                Some(name) => DispatchOutcome::Immediate(
                    PrivilegedResponse::Error(ErrorReply::NameInUse { name, existing: existing.id }),
                ),
                None => vstd::pervasive::unreached(),
            },
            Ok(None) => to_admin_gate(request, parsed),
            Err(error) => DispatchOutcome::Immediate(error_response(error)),
        },
        (AddState::Authorizing(new), StoreReply::Done(result)) => match admin_auth_verdict(result) {
            Ok(_) => DispatchOutcome::Ask {
                state: HandlerState::Add(AddState::Allocating(new)),
                call: StoreCall::AllocateInterface,
            },
            Err(response) => DispatchOutcome::Immediate(response),
        },
        (AddState::Allocating(new), StoreReply::Allocated(result)) => match result {
            Ok((id, interface)) => DispatchOutcome::Ask {
                state: HandlerState::Add(AddState::ReadingClock(new, id, interface)),
                call: StoreCall::Now,
            },
            Err(error) => DispatchOutcome::Immediate(error_response(error)),
        },
        (AddState::ReadingClock(new, id, interface), StoreReply::Time(now)) => {
            let record = StoredConnection {
                id: id.copy(),
                fingerprint: new.parsed.fingerprint,
                global: new.global,
                owner_uid: new.owner_uid,
                start_mode: new.start_mode,
                name: new.name,
                config: new.parsed.config,
                raw_conf: new.raw_conf,
                interface,
                created_at: now,
                updated_at: now,
                user_disconnected: false,
            };
            DispatchOutcome::Ask {
                state: HandlerState::Add(AddState::Creating(id)),
                call: StoreCall::Create { record },
            }
        },
        (AddState::Creating(id), StoreReply::Done(result)) => match result {
            Ok(_) => DispatchOutcome::Immediate(PrivilegedResponse::ConnectionId(id)),
            Err(error) => DispatchOutcome::Immediate(error_response(error)),
        },
        (_, _) => vstd::pervasive::unreached(),
    }
}

// ---- content that is stored already -----------------------------------------

/// A record and what is asked to become of it.
#[derive(Debug)]
pub struct RecordChange {
    pub existing: StoredConnection,
    pub name: Option<String>,
    pub start_mode: ConnectionStartMode,
}

/// What a change to a stored connection is waiting for.
#[derive(Debug)]
pub enum ReconcileState {
    FindingName(RecordChange, Option<Vec<u8>>),
    Authorizing(RecordChange),
    Locking(RecordChange),
    ReadingClock(RecordChange),
    Updating(ConnectionId),
}

impl ReconcileState {
    /// `reply` is of the kind that the change is waiting for.
    pub open spec fn accepts(self, reply: StoreReply) -> bool {
        match self {
            ReconcileState::FindingName(change, _) => reply is Record && change.name is Some,
            ReconcileState::Authorizing(_) => reply is Done,
            ReconcileState::Locking(_) => reply is Done,
            ReconcileState::ReadingClock(_) => reply is Time,
            ReconcileState::Updating(_) => reply is Done,
        }
    }
}

/// A name is asked for, and it is not the one on the record.
pub open spec fn renames(name: Option<String>, stored: Option<String>) -> bool {
    name matches Some(wanted) && !(stored matches Some(current) && current@ == wanted@)
}

/// A global connection is to start by itself from now on: its hooks would run
/// as root at every boot with nobody asked again.
pub open spec fn elevates(record: StoredConnection, start_mode: ConnectionStartMode) -> bool {
    record.global && record.start_mode == ConnectionStartMode::Manual && start_mode
        == ConnectionStartMode::Automatic
}

/// The record after the change at time `now`. A change that lands on automatic
/// asks for the connection to be managed again, so it also forgets that the
/// user took the connection down.
pub open spec fn changed_record(change: RecordChange, now: u64) -> StoredConnection {
    let existing = change.existing;
    StoredConnection {
        name: if renames(change.name, existing.name) {
            change.name
        } else {
            existing.name
        },
        start_mode: change.start_mode,
        user_disconnected: existing.user_disconnected && (change.start_mode == existing.start_mode
            || change.start_mode != ConnectionStartMode::Automatic),
        updated_at: now,
        ..existing
    }
}

/// A change past the check of its name: at the admin gate where it elevates,
/// and at the connection's lock otherwise.
pub open spec fn reconcile_past_name(
    change: RecordChange,
    auth: Option<Vec<u8>>,
) -> DispatchOutcome {
    if elevates(change.existing, change.start_mode) {
        match auth {
            None => DispatchOutcome::Immediate(
                PrivilegedResponse::Error(ErrorReply::AuthRequired(AdminCause::AutomaticStartup)),
            ),
            Some(external_form) => DispatchOutcome::Ask {
                state: HandlerState::Reconcile(ReconcileState::Authorizing(change)),
                call: StoreCall::VerifyAdmin { external_form },
            },
        }
    } else {
        DispatchOutcome::Ask {
            state: HandlerState::Reconcile(ReconcileState::Locking(change)),
            call: StoreCall::LockConnection { id: change.existing.id },
        }
    }
}

/// How an addition goes on whose content is stored already.
pub open spec fn reconcile_start(
    existing: StoredConnection,
    name: Option<String>,
    start_mode: ConnectionStartMode,
    force: bool,
    auth: Option<Vec<u8>>,
) -> DispatchOutcome {
    let change = RecordChange { existing, name, start_mode };
    if !renames(name, existing.name) && start_mode == existing.start_mode {
        DispatchOutcome::Immediate(PrivilegedResponse::ConnectionId(existing.id))
    } else if renames(name, existing.name) && !force {
        DispatchOutcome::Ask {
            state: HandlerState::Reconcile(ReconcileState::FindingName(change, auth)),
            call: StoreCall::FindByName {
                name: name->0,
                global: existing.global,
                owner_uid: existing.owner_uid,
            },
        }
    } else {
        reconcile_past_name(change, auth)
    }
}

/// How a change goes on from an answer.
pub open spec fn reconcile_next(state: ReconcileState, reply: StoreReply) -> DispatchOutcome {
    match (state, reply) {
        (ReconcileState::FindingName(change, auth), StoreReply::Record(Ok(found))) => {
            match found {
                Some(other) => if other.id.same(change.existing.id) {
                    reconcile_past_name(change, auth)
                } else {
                    name_in_use(change.name->0, other.id)
                },
                None => reconcile_past_name(change, auth),
            }
        },
        (ReconcileState::FindingName(_, _), StoreReply::Record(Err(error))) =>
            dispatch::failed(error),
        (ReconcileState::Authorizing(change), StoreReply::Done(Ok(_))) => DispatchOutcome::Ask {
            state: HandlerState::Reconcile(ReconcileState::Locking(change)),
            call: StoreCall::LockConnection { id: change.existing.id },
        },
        (ReconcileState::Authorizing(_), StoreReply::Done(Err(error))) =>
            dispatch::refused(error),
        (ReconcileState::Locking(change), StoreReply::Done(Ok(_))) => DispatchOutcome::Ask {
            state: HandlerState::Reconcile(ReconcileState::ReadingClock(change)),
            call: StoreCall::Now,
        },
        (ReconcileState::Locking(_), StoreReply::Done(Err(error))) => dispatch::lock_failed(error),
        (ReconcileState::ReadingClock(change), StoreReply::Time(now)) => DispatchOutcome::Ask {
            state: HandlerState::Reconcile(ReconcileState::Updating(change.existing.id)),
            call: StoreCall::Update { record: changed_record(change, now) },
        },
        (ReconcileState::Updating(id), StoreReply::Done(Ok(_))) => DispatchOutcome::Immediate(
            PrivilegedResponse::ConnectionId(id),
        ),
        (ReconcileState::Updating(_), StoreReply::Done(Err(error))) => dispatch::failed(error),
        _ => DispatchOutcome::Immediate(PrivilegedResponse::Unit),
    }
}

fn is_rename(name: &Option<String>, stored: &Option<String>) -> (result: bool)
    ensures
        result == renames(*name, *stored),
{
    match name {
        None => false,
        Some(wanted) => match stored {
            None => true,
            Some(current) => !(*current == *wanted),
        },
    }
}

fn past_name(change: RecordChange, auth: Option<Vec<u8>>) -> (outcome: DispatchOutcome)
    ensures
        outcome == reconcile_past_name(change, auth),
{
    let elevating: bool = change.existing.global && change.existing.start_mode
        == ConnectionStartMode::Manual && change.start_mode == ConnectionStartMode::Automatic;
    if elevating {
        match require_admin_auth(auth, AdminCause::AutomaticStartup) {
            Err(response) => DispatchOutcome::Immediate(response),
            Ok(external_form) => DispatchOutcome::Ask {
                state: HandlerState::Reconcile(ReconcileState::Authorizing(change)),
                call: StoreCall::VerifyAdmin { external_form },
            },
        }
    } else {
        let id = change.existing.id.copy();
        DispatchOutcome::Ask {
            state: HandlerState::Reconcile(ReconcileState::Locking(change)),
            call: StoreCall::LockConnection { id },
        }
    }
}

/// Goes on with an addition whose content is stored already, as `existing`: the
/// content stays as it is, but the caller may ask for another name or start
/// mode. The lookup that found the record was for the caller's own scope, so
/// the record is known to be the caller's.
pub fn reconcile_existing_add(
    existing: StoredConnection,
    name: Option<String>,
    start_mode: ConnectionStartMode,
    force: bool,
    auth_external_form: Option<Vec<u8>>,
) -> (outcome: DispatchOutcome)
    ensures
        outcome == reconcile_start(existing, name, start_mode, force, auth_external_form),
        dispatch::ready(outcome),
{
    let name_changed: bool = is_rename(&name, &existing.name);
    let mode_changed: bool = start_mode != existing.start_mode;
    if !name_changed && !mode_changed {
        return DispatchOutcome::Immediate(PrivilegedResponse::ConnectionId(existing.id));
    }
    if name_changed && !force {
        let wanted: Option<String> = match &name {
            Some(name) => Some(name.clone()),
            None => None,
        };
        if let Some(wanted) = wanted {
            let global: bool = existing.global;
            let owner_uid: Option<u32> = existing.owner_uid;
            let change = RecordChange { existing, name, start_mode };
            return DispatchOutcome::Ask {
                state: HandlerState::Reconcile(
                    ReconcileState::FindingName(change, auth_external_form),
                ),
                call: StoreCall::FindByName { name: wanted, global, owner_uid },
            };
        }
    }
    past_name(RecordChange { existing, name, start_mode }, auth_external_form)
}

/// Goes on with a change to a stored connection from an answer.
pub fn resume_reconcile(state: ReconcileState, reply: StoreReply) -> (outcome: DispatchOutcome)
    requires
        state.accepts(reply),
    ensures
        outcome == reconcile_next(state, reply),
        dispatch::ready(outcome),
{
    match (state, reply) {
        (ReconcileState::FindingName(change, auth), StoreReply::Record(result)) => match result {
            Ok(Some(other)) => if other.id.is(&change.existing.id) {
                past_name(change, auth)
            } else {
                match change.name {
                    Some(name) => DispatchOutcome::Immediate(
                        PrivilegedResponse::Error(
                            ErrorReply::NameInUse { name, existing: other.id },
                        ),
                    ),
                    None => vstd::pervasive::unreached(),
                }
            },
            Ok(None) => past_name(change, auth),
            Err(error) => DispatchOutcome::Immediate(error_response(error)),
        },
        (ReconcileState::Authorizing(change), StoreReply::Done(result)) => {
            match admin_auth_verdict(result) {
                Ok(_) => {
                    let id = change.existing.id.copy();
                    DispatchOutcome::Ask {
                        state: HandlerState::Reconcile(ReconcileState::Locking(change)),
                        call: StoreCall::LockConnection { id },
                    }
                },
                Err(response) => DispatchOutcome::Immediate(response),
            }
        },
        (ReconcileState::Locking(change), StoreReply::Done(result)) => match result {
            Ok(_) => DispatchOutcome::Ask {
                state: HandlerState::Reconcile(ReconcileState::ReadingClock(change)),
                call: StoreCall::Now,
            },
            Err(error) => DispatchOutcome::Immediate(lock_error_response(error)),
        },
        (ReconcileState::ReadingClock(change), StoreReply::Time(now)) => {
            let RecordChange { existing, name, start_mode } = change;
            let mut record = existing;
            let id = record.id.copy();
            if is_rename(&name, &record.name) {
                record.name = name;
            }
            if start_mode != record.start_mode {
                record.start_mode = start_mode;
                if start_mode == ConnectionStartMode::Automatic {
                    record.user_disconnected = false;
                }
            }
            record.updated_at = now;
            DispatchOutcome::Ask {
                state: HandlerState::Reconcile(ReconcileState::Updating(id)),
                call: StoreCall::Update { record },
            }
        },
        (ReconcileState::Updating(id), StoreReply::Done(result)) => match result {
            Ok(_) => DispatchOutcome::Immediate(PrivilegedResponse::ConnectionId(id)),
            Err(error) => DispatchOutcome::Immediate(error_response(error)),
        },
        (_, _) => vstd::pervasive::unreached(),
    }
}

} // verus!
