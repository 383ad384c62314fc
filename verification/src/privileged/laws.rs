//! What holds of every request from its beginning to its answer, whatever the
//! store and the machine reply on the way.

use vstd::prelude::*;

use crate::privileged::add;
use crate::privileged::add::{AddRequest, AddState, NewConnection, RecordChange, ReconcileState};
use crate::privileged::change::{ModeRequest, ModeState, RemoveRequest, RemoveState};
use crate::privileged::dispatch;
use crate::privileged::dispatch::{DispatchOutcome, HandlerState, PeerOrigin};
use crate::privileged::query;
use crate::privileged::query::{GetState, InterfaceState, ListState};
use crate::privileged::store::{ParsedConfig, StoreCall, StoreReply, StoredConnection};
use crate::privileged::tunnel::{ConnectRequest, ConnectState, DisconnectRequest, DisconnectState};
use crate::privileged_api::{
    ConnectReason, ConnectionId, ConnectionScope, ConnectionStartMode, ConnectionSummary,
    DisconnectReason, PrivilegedRequest, PrivilegedResponse,
};

pub mod leases;
pub mod locks;
pub mod refusals;
pub mod results;
pub mod shown;
pub mod stored;

verus! {

// ---- courses ----------------------------------------------------------------

/// `next` is how a request goes on from `outcome` when `reply` comes back.
pub open spec fn went_on(
    outcome: DispatchOutcome,
    reply: StoreReply,
    next: DispatchOutcome,
) -> bool {
    match outcome {
        DispatchOutcome::Immediate(_) => false,
        DispatchOutcome::Ask { state, call } => crate::privileged::store::fits(call, reply)
            && dispatch::stepped(state, reply, next),
        DispatchOutcome::Pending { worker, call } => crate::privileged::store::fits(call, reply)
            && dispatch::stepped(worker, reply, next),
    }
}

/// `outcomes` is a course that the request can take: it begins as `dispatch`
/// says, and goes on from each of `replies` as `resume` says.
pub open spec fn course(
    request: PrivilegedRequest,
    origin: PeerOrigin,
    sudo_uid: Option<Seq<char>>,
    replies: Seq<StoreReply>,
    outcomes: Seq<DispatchOutcome>,
) -> bool {
    &&& outcomes.len() == replies.len() + 1
    &&& dispatch::begun(request, origin, sudo_uid, outcomes[0])
    &&& forall|i: int|
        0 <= i < replies.len() ==> went_on(outcomes[i], #[trigger] replies[i], outcomes[i + 1])
}

/// The operation that an outcome asks for.
pub open spec fn called(outcome: DispatchOutcome) -> Option<StoreCall> {
    match outcome {
        DispatchOutcome::Immediate(_) => None,
        DispatchOutcome::Ask { state: _, call } => Some(call),
        DispatchOutcome::Pending { worker: _, call } => Some(call),
    }
}

/// Before step `k`, `call` was asked for and answered by `reply`.
pub open spec fn exchanged(
    replies: Seq<StoreReply>,
    outcomes: Seq<DispatchOutcome>,
    k: int,
    call: StoreCall,
    reply: StoreReply,
) -> bool {
    exists|j: int|
        0 <= j < k && called(#[trigger] outcomes[j]) == Some(call) && replies[j] == reply
}

/// Before step `k`, `call` was asked for and carried out.
pub open spec fn carried_out(
    replies: Seq<StoreReply>,
    outcomes: Seq<DispatchOutcome>,
    k: int,
    call: StoreCall,
) -> bool {
    exists|j: int|
        0 <= j < k && called(#[trigger] outcomes[j]) == Some(call) && replies[j] matches
            StoreReply::Done(Ok(_))
}

/// The admin credentials that a request presents.
pub open spec fn presented(request: PrivilegedRequest) -> Option<Vec<u8>> {
    match request {
        PrivilegedRequest::AddConnection {
            conf_text: _,
            global: _,
            start_mode: _,
            name: _,
            mtu_override: _,
            force: _,
            auth_external_form,
        } => auth_external_form,
        PrivilegedRequest::RemoveConnection { id: _, auth_external_form } => auth_external_form,
        PrivilegedRequest::SetConnectionMode { id: _, start_mode: _, auth_external_form } =>
            auth_external_form,
        _ => None,
    }
}

/// Before step `k`, the credentials that the request presents were verified.
pub open spec fn admitted(
    request: PrivilegedRequest,
    replies: Seq<StoreReply>,
    outcomes: Seq<DispatchOutcome>,
    k: int,
) -> bool {
    presented(request) matches Some(external_form) && carried_out(
        replies,
        outcomes,
        k,
        StoreCall::VerifyAdmin { external_form },
    )
}

/// Before step `k`, the record was read as the answer to `call`.
pub open spec fn read_by(
    replies: Seq<StoreReply>,
    outcomes: Seq<DispatchOutcome>,
    k: int,
    call: StoreCall,
    record: StoredConnection,
) -> bool {
    exchanged(replies, outcomes, k, call, StoreReply::Record(Ok(Some(record))))
}

/// Before step `k`, the connection `id` was read and the caller may access it.
pub open spec fn access_granted(
    origin: PeerOrigin,
    id: ConnectionId,
    replies: Seq<StoreReply>,
    outcomes: Seq<DispatchOutcome>,
    k: int,
) -> bool {
    exists|record: StoredConnection| #[trigger]
        read_by(replies, outcomes, k, StoreCall::Load { id }, record) && dispatch::may_access(
            record,
            origin,
        )
}

/// The two records hold the same configuration, in the same place.
pub open spec fn same_content(a: StoredConnection, b: StoredConnection) -> bool {
    &&& a.id == b.id
    &&& a.fingerprint == b.fingerprint
    &&& a.global == b.global
    &&& a.owner_uid == b.owner_uid
    &&& a.config == b.config
    &&& a.raw_conf == b.raw_conf
    &&& a.interface == b.interface
    &&& a.created_at == b.created_at
}

proof fn lemma_exchanged_later(
    replies: Seq<StoreReply>,
    outcomes: Seq<DispatchOutcome>,
    k: int,
    call: StoreCall,
    reply: StoreReply,
)
    requires
        exchanged(replies, outcomes, k, call, reply),
    ensures
        exchanged(replies, outcomes, k + 1, call, reply),
{
    let j = choose|j: int|
        0 <= j < k && called(#[trigger] outcomes[j]) == Some(call) && replies[j] == reply;
    assert(called(outcomes[j]) == Some(call));
}

proof fn lemma_exchanged_now(
    replies: Seq<StoreReply>,
    outcomes: Seq<DispatchOutcome>,
    k: int,
    call: StoreCall,
)
    requires
        0 <= k,
        called(outcomes[k]) == Some(call),
    ensures
        exchanged(replies, outcomes, k + 1, call, replies[k]),
{
    assert(called(outcomes[k]) == Some(call));
}

/// What has happened stays so.
proof fn lemma_later(
    request: PrivilegedRequest,
    origin: PeerOrigin,
    id: ConnectionId,
    replies: Seq<StoreReply>,
    outcomes: Seq<DispatchOutcome>,
    k: int,
)
    ensures
        admitted(request, replies, outcomes, k) ==> admitted(request, replies, outcomes, k + 1),
        access_granted(origin, id, replies, outcomes, k) ==> access_granted(
            origin,
            id,
            replies,
            outcomes,
            k + 1,
        ),
{
    if admitted(request, replies, outcomes, k) {
        let call = StoreCall::VerifyAdmin { external_form: presented(request)->0 };
        let j = choose|j: int|
            0 <= j < k && called(#[trigger] outcomes[j]) == Some(call) && replies[j] matches
                StoreReply::Done(Ok(_));
        assert(called(outcomes[j]) == Some(call));
    }
    if access_granted(origin, id, replies, outcomes, k) {
        let record = choose|record: StoredConnection| #[trigger]
            read_by(replies, outcomes, k, StoreCall::Load { id }, record) && dispatch::may_access(
                record,
                origin,
            );
        lemma_exchanged_later(
            replies,
            outcomes,
            k,
            StoreCall::Load { id },
            StoreReply::Record(Ok(Some(record))),
        );
        assert(read_by(replies, outcomes, k + 1, StoreCall::Load { id }, record));
    }
}

// ---- removals ---------------------------------------------------------------

spec fn removal_on_course(
    id: ConnectionId,
    auth: Option<Vec<u8>>,
    origin: PeerOrigin,
    replies: Seq<StoreReply>,
    outcomes: Seq<DispatchOutcome>,
    k: int,
) -> bool {
    let request = PrivilegedRequest::RemoveConnection { id, auth_external_form: auth };
    let own = RemoveRequest { origin, id, auth };
    match outcomes[k] {
        DispatchOutcome::Immediate(_) => true,
        DispatchOutcome::Ask { state: HandlerState::Remove(state), call } => match state {
            RemoveState::LockingIndex(request) => request == own && call == StoreCall::LockIndex,
            RemoveState::Loading(request) => request == own && call == StoreCall::Load { id },
            RemoveState::LockingConnection(request) => {
                &&& request == own
                &&& call == StoreCall::LockConnection { id }
                &&& access_granted(origin, id, replies, outcomes, k)
            },
            RemoveState::CheckingActive(request) => {
                &&& request == own
                &&& call == StoreCall::IsActive { id }
                &&& access_granted(origin, id, replies, outcomes, k)
            },
            RemoveState::Authorizing(locked) => {
                &&& locked == id
                &&& auth matches Some(external_form) && call == StoreCall::VerifyAdmin {
                    external_form,
                }
                &&& access_granted(origin, id, replies, outcomes, k)
                &&& exchanged(
                    replies,
                    outcomes,
                    k,
                    StoreCall::IsActive { id },
                    StoreReply::Active(Ok(false)),
                )
            },
            RemoveState::Removing => {
                &&& call == StoreCall::Remove { id }
                &&& access_granted(origin, id, replies, outcomes, k)
                &&& admitted(request, replies, outcomes, k)
                &&& exchanged(
                    replies,
                    outcomes,
                    k,
                    StoreCall::IsActive { id },
                    StoreReply::Active(Ok(false)),
                )
            },
        },
        _ => false,
    }
}

proof fn lemma_removal(
    id: ConnectionId,
    auth: Option<Vec<u8>>,
    origin: PeerOrigin,
    sudo_uid: Option<Seq<char>>,
    replies: Seq<StoreReply>,
    outcomes: Seq<DispatchOutcome>,
    k: int,
)
    requires
        course(
            PrivilegedRequest::RemoveConnection { id, auth_external_form: auth },
            origin,
            sudo_uid,
            replies,
            outcomes,
        ),
        0 <= k < outcomes.len(),
    ensures
        removal_on_course(id, auth, origin, replies, outcomes, k),
    decreases k,
{
    if k > 0 {
        let p = k - 1;
        let request = PrivilegedRequest::RemoveConnection { id, auth_external_form: auth };
        lemma_removal(id, auth, origin, sudo_uid, replies, outcomes, p);
        assert(went_on(outcomes[p], replies[p], outcomes[p + 1]));
        lemma_later(request, origin, id, replies, outcomes, p);
        lemma_exchanged_now(replies, outcomes, p, called(outcomes[p])->0);
        if exchanged(
            replies,
            outcomes,
            p,
            StoreCall::IsActive { id },
            StoreReply::Active(Ok(false)),
        ) {
            lemma_exchanged_later(
                replies,
                outcomes,
                p,
                StoreCall::IsActive { id },
                StoreReply::Active(Ok(false)),
            );
        }
        if let StoreReply::Record(Ok(Some(record))) = replies[p] {
            assert(called(outcomes[p]) == Some(StoreCall::Load { id }) ==> read_by(
                replies,
                outcomes,
                k,
                StoreCall::Load { id },
                record,
            ));
        }
    }
}

// ---- start modes ------------------------------------------------------------

/// `record` was read before step `k` as the connection `id`, and the caller may
/// access it.
spec fn own_record(
    origin: PeerOrigin,
    id: ConnectionId,
    replies: Seq<StoreReply>,
    outcomes: Seq<DispatchOutcome>,
    k: int,
    record: StoredConnection,
) -> bool {
    read_by(replies, outcomes, k, StoreCall::Load { id }, record) && dispatch::may_access(
        record,
        origin,
    )
}

proof fn lemma_own_record_later(
    origin: PeerOrigin,
    id: ConnectionId,
    replies: Seq<StoreReply>,
    outcomes: Seq<DispatchOutcome>,
    k: int,
    record: StoredConnection,
)
    ensures
        own_record(origin, id, replies, outcomes, k, record) ==> own_record(
            origin,
            id,
            replies,
            outcomes,
            k + 1,
            record,
        ),
        own_record(origin, id, replies, outcomes, k, record) ==> access_granted(
            origin,
            id,
            replies,
            outcomes,
            k,
        ),
{
    if own_record(origin, id, replies, outcomes, k, record) {
        lemma_exchanged_later(
            replies,
            outcomes,
            k,
            StoreCall::Load { id },
            StoreReply::Record(Ok(Some(record))),
        );
    }
}

spec fn mode_on_course(
    id: ConnectionId,
    start_mode: ConnectionStartMode,
    auth: Option<Vec<u8>>,
    origin: PeerOrigin,
    replies: Seq<StoreReply>,
    outcomes: Seq<DispatchOutcome>,
    k: int,
) -> bool {
    let request = PrivilegedRequest::SetConnectionMode { id, start_mode, auth_external_form: auth };
    let own = ModeRequest { origin, id, start_mode, auth };
    match outcomes[k] {
        DispatchOutcome::Immediate(_) => true,
        DispatchOutcome::Ask { state: HandlerState::Mode(state), call } => match state {
            ModeState::Locking(request) => request == own && call == StoreCall::LockConnection {
                id,
            },
            ModeState::Loading(request) => request == own && call == StoreCall::Load { id },
            ModeState::Authorizing(record, mode) => {
                &&& mode == start_mode
                &&& auth matches Some(external_form) && call == StoreCall::VerifyAdmin {
                    external_form,
                }
                &&& own_record(origin, id, replies, outcomes, k, record)
                &&& add::elevates(record, start_mode)
            },
            ModeState::ReadingClock(record, mode) => {
                &&& mode == start_mode
                &&& call == StoreCall::Now
                &&& own_record(origin, id, replies, outcomes, k, record)
                &&& record.start_mode != start_mode
                &&& add::elevates(record, start_mode) ==> admitted(request, replies, outcomes, k)
            },
            ModeState::Updating => {
                &&& call matches StoreCall::Update { record: after }
                &&& exists|record: StoredConnection| #[trigger]
                    own_record(origin, id, replies, outcomes, k, record) && record.start_mode
                        != start_mode && (add::elevates(record, start_mode) ==> admitted(
                        request,
                        replies,
                        outcomes,
                        k,
                    )) && after == crate::privileged::change::mode_set(
                        record,
                        start_mode,
                        after.updated_at,
                    )
            },
        },
        _ => false,
    }
}

proof fn lemma_mode(
    id: ConnectionId,
    start_mode: ConnectionStartMode,
    auth: Option<Vec<u8>>,
    origin: PeerOrigin,
    sudo_uid: Option<Seq<char>>,
    replies: Seq<StoreReply>,
    outcomes: Seq<DispatchOutcome>,
    k: int,
)
    requires
        course(
            PrivilegedRequest::SetConnectionMode { id, start_mode, auth_external_form: auth },
            origin,
            sudo_uid,
            replies,
            outcomes,
        ),
        0 <= k < outcomes.len(),
    ensures
        mode_on_course(id, start_mode, auth, origin, replies, outcomes, k),
    decreases k,
{
    if k > 0 {
        let p = k - 1;
        let request = PrivilegedRequest::SetConnectionMode {
            id,
            start_mode,
            auth_external_form: auth,
        };
        lemma_mode(id, start_mode, auth, origin, sudo_uid, replies, outcomes, p);
        assert(went_on(outcomes[p], replies[p], outcomes[p + 1]));
        lemma_later(request, origin, id, replies, outcomes, p);
        lemma_exchanged_now(replies, outcomes, p, called(outcomes[p])->0);
        match outcomes[p] {
            DispatchOutcome::Ask { state: HandlerState::Mode(state), call } => match state {
                ModeState::Authorizing(record, _) => {
                    lemma_own_record_later(origin, id, replies, outcomes, p, record);
                },
                ModeState::ReadingClock(record, _) => {
                    lemma_own_record_later(origin, id, replies, outcomes, p, record);
                },
                _ => {},
            },
            _ => {},
        }
    }
}

// ---- tunnels ----------------------------------------------------------------

/// The last thing before step `k` was to take the lock on the connection `id`.
pub open spec fn just_locked(
    id: ConnectionId,
    replies: Seq<StoreReply>,
    outcomes: Seq<DispatchOutcome>,
    k: int,
) -> bool {
    &&& k > 0
    &&& called(outcomes[k - 1]) == Some(StoreCall::LockConnectionPatient { id })
    &&& replies[k - 1] matches StoreReply::Done(Ok(_))
}

/// The last thing before step `k` was to read the connection `id` under its
/// lock, and it was gone, or its user had not taken it down.
pub open spec fn just_read_wanted(
    id: ConnectionId,
    replies: Seq<StoreReply>,
    outcomes: Seq<DispatchOutcome>,
    k: int,
) -> bool {
    &&& just_locked(id, replies, outcomes, k - 1)
    &&& called(outcomes[k - 1]) == Some(StoreCall::Load { id })
    &&& replies[k - 1] matches StoreReply::Record(Ok(stored)) && (stored matches Some(record)
        ==> !record.user_disconnected)
}

/// The last thing before step `k` was to write a record that says whether the
/// user took the connection down.
pub open spec fn just_written(
    user_disconnected: bool,
    replies: Seq<StoreReply>,
    outcomes: Seq<DispatchOutcome>,
    k: int,
) -> bool {
    &&& k > 0
    &&& called(outcomes[k - 1]) matches Some(StoreCall::Update { record })
        && record.user_disconnected == user_disconnected
    &&& replies[k - 1] matches StoreReply::Done(Ok(_))
}

spec fn connect_on_course(
    id: ConnectionId,
    debug: bool,
    reason: ConnectReason,
    origin: PeerOrigin,
    replies: Seq<StoreReply>,
    outcomes: Seq<DispatchOutcome>,
    k: int,
) -> bool {
    let own = ConnectRequest { id, debug, reason };
    match outcomes[k] {
        DispatchOutcome::Immediate(_) => true,
        DispatchOutcome::Pending { worker, call } => {
            &&& worker == HandlerState::Connect(ConnectState::Locking(own))
            &&& call == StoreCall::LockConnectionPatient { id }
            &&& access_granted(origin, id, replies, outcomes, k)
        },
        DispatchOutcome::Ask { state: HandlerState::Connect(state), call } => match state {
            ConnectState::Loading(caller, request) => {
                &&& caller == origin
                &&& request == own
                &&& call == StoreCall::Load { id }
            },
            ConnectState::Locking(_) => false,
            ConnectState::Resolving(request) => {
                &&& request == own
                &&& just_locked(id, replies, outcomes, k)
                &&& call == StoreCall::Load { id }
                &&& access_granted(origin, id, replies, outcomes, k)
            },
            ConnectState::Clearing(cleared, with_debug) => {
                &&& cleared == id
                &&& with_debug == debug
                &&& reason == ConnectReason::User
                &&& access_granted(origin, id, replies, outcomes, k)
                &&& call matches StoreCall::Update { record: after }
                &&& exists|record: StoredConnection| #[trigger]
                    read_by(replies, outcomes, k, StoreCall::Load { id }, record)
                        && record.user_disconnected && after == (StoredConnection {
                        user_disconnected: false,
                        ..record
                    })
            },
            ConnectState::Connecting => {
                &&& call == (StoreCall::Connect { id, debug })
                &&& access_granted(origin, id, replies, outcomes, k)
                &&& just_read_wanted(id, replies, outcomes, k) || (reason == ConnectReason::User
                    && just_written(false, replies, outcomes, k))
            },
        },
        _ => false,
    }
}

proof fn lemma_connect(
    id: ConnectionId,
    debug: bool,
    reason: ConnectReason,
    origin: PeerOrigin,
    sudo_uid: Option<Seq<char>>,
    replies: Seq<StoreReply>,
    outcomes: Seq<DispatchOutcome>,
    k: int,
)
    requires
        course(
            PrivilegedRequest::ConnectConnection { id, debug, reason },
            origin,
            sudo_uid,
            replies,
            outcomes,
        ),
        0 <= k < outcomes.len(),
    ensures
        connect_on_course(id, debug, reason, origin, replies, outcomes, k),
    decreases k,
{
    if k > 0 {
        let p = k - 1;
        let request = PrivilegedRequest::ConnectConnection { id, debug, reason };
        lemma_connect(id, debug, reason, origin, sudo_uid, replies, outcomes, p);
        assert(went_on(outcomes[p], replies[p], outcomes[p + 1]));
        lemma_later(request, origin, id, replies, outcomes, p);
        lemma_exchanged_now(replies, outcomes, p, called(outcomes[p])->0);
        if let StoreReply::Record(Ok(Some(record))) = replies[p] {
            assert(called(outcomes[p]) == Some(StoreCall::Load { id }) ==> read_by(
                replies,
                outcomes,
                k,
                StoreCall::Load { id },
                record,
            ));
        }
    }
}

spec fn disconnect_on_course(
    id: ConnectionId,
    reason: DisconnectReason,
    origin: PeerOrigin,
    replies: Seq<StoreReply>,
    outcomes: Seq<DispatchOutcome>,
    k: int,
) -> bool {
    let own = DisconnectRequest { id, reason };
    match outcomes[k] {
        DispatchOutcome::Immediate(_) => true,
        DispatchOutcome::Pending { worker, call } => {
            &&& worker == HandlerState::Disconnect(DisconnectState::Locking(own))
            &&& call == StoreCall::LockConnectionPatient { id }
            &&& access_granted(origin, id, replies, outcomes, k)
        },
        DispatchOutcome::Ask { state: HandlerState::Disconnect(state), call } => match state {
            DisconnectState::Loading(caller, request) => {
                &&& caller == origin
                &&& request == own
                &&& call == StoreCall::Load { id }
            },
            DisconnectState::Locking(_) => false,
            DisconnectState::Marking(marking) => {
                &&& marking == id
                &&& just_locked(id, replies, outcomes, k)
                &&& reason == DisconnectReason::User
                &&& call == StoreCall::Load { id }
                &&& access_granted(origin, id, replies, outcomes, k)
            },
            DisconnectState::Marked(marked) => {
                &&& marked == id
                &&& reason == DisconnectReason::User
                &&& access_granted(origin, id, replies, outcomes, k)
                &&& call matches StoreCall::Update { record: after }
                &&& exists|record: StoredConnection| #[trigger]
                    read_by(replies, outcomes, k, StoreCall::Load { id }, record)
                        && !record.user_disconnected && after == (StoredConnection {
                        user_disconnected: true,
                        ..record
                    })
            },
            DisconnectState::Disconnecting => {
                &&& call == (StoreCall::Disconnect { id })
                &&& access_granted(origin, id, replies, outcomes, k)
                &&& reason == DisconnectReason::User ==> just_written(true, replies, outcomes, k)
                    || just_read_unwanted(id, replies, outcomes, k)
            },
        },
        _ => false,
    }
}

/// The last thing before step `k` was to read the connection `id` under its
/// lock, and it was gone, or its user had taken it down already.
pub open spec fn just_read_unwanted(
    id: ConnectionId,
    replies: Seq<StoreReply>,
    outcomes: Seq<DispatchOutcome>,
    k: int,
) -> bool {
    &&& just_locked(id, replies, outcomes, k - 1)
    &&& called(outcomes[k - 1]) == Some(StoreCall::Load { id })
    &&& replies[k - 1] matches StoreReply::Record(Ok(stored)) && (stored matches Some(record)
        ==> record.user_disconnected)
}

proof fn lemma_disconnect(
    id: ConnectionId,
    reason: DisconnectReason,
    origin: PeerOrigin,
    sudo_uid: Option<Seq<char>>,
    replies: Seq<StoreReply>,
    outcomes: Seq<DispatchOutcome>,
    k: int,
)
    requires
        course(
            PrivilegedRequest::DisconnectConnection { id, reason },
            origin,
            sudo_uid,
            replies,
            outcomes,
        ),
        0 <= k < outcomes.len(),
    ensures
        disconnect_on_course(id, reason, origin, replies, outcomes, k),
    decreases k,
{
    if k > 0 {
        let p = k - 1;
        let request = PrivilegedRequest::DisconnectConnection { id, reason };
        lemma_disconnect(id, reason, origin, sudo_uid, replies, outcomes, p);
        assert(went_on(outcomes[p], replies[p], outcomes[p + 1]));
        lemma_later(request, origin, id, replies, outcomes, p);
        lemma_exchanged_now(replies, outcomes, p, called(outcomes[p])->0);
        if let StoreReply::Record(Ok(Some(record))) = replies[p] {
            assert(called(outcomes[p]) == Some(StoreCall::Load { id }) ==> read_by(
                replies,
                outcomes,
                k,
                StoreCall::Load { id },
                record,
            ));
        }
    }
}

// ---- additions --------------------------------------------------------------

/// What an addition asks for, once it has begun.
pub open spec fn asked(outcomes: Seq<DispatchOutcome>) -> AddRequest {
    match outcomes[0] {
        DispatchOutcome::Ask { state: HandlerState::Add(AddState::Parsing(request)), call: _ } =>
            request,
        _ => arbitrary(),
    }
}

/// Before step `k`, the text of the addition was parsed as `parsed`.
pub open spec fn parsed_as(
    replies: Seq<StoreReply>,
    outcomes: Seq<DispatchOutcome>,
    k: int,
    parsed: ParsedConfig,
) -> bool {
    exchanged(
        replies,
        outcomes,
        k,
        StoreCall::ParseConfig { conf_text: asked(outcomes).conf_text },
        StoreReply::Parsed(Ok(parsed)),
    )
}

/// Before step `k`, `existing` was found in the caller's scope with the content
/// that the addition brings.
pub open spec fn found_identical(
    replies: Seq<StoreReply>,
    outcomes: Seq<DispatchOutcome>,
    k: int,
    existing: StoredConnection,
) -> bool {
    exists|parsed: ParsedConfig| #[trigger]
        parsed_as(replies, outcomes, k, parsed) && read_by(
            replies,
            outcomes,
            k,
            StoreCall::FindByIdentity {
                fingerprint: parsed.fingerprint,
                global: asked(outcomes).global,
                owner_uid: asked(outcomes).owner_uid,
            },
            existing,
        )
}

/// Before step `k`, nothing was found in the caller's scope with the content that
/// the addition brings.
pub open spec fn found_nothing_identical(
    replies: Seq<StoreReply>,
    outcomes: Seq<DispatchOutcome>,
    k: int,
    parsed: ParsedConfig,
) -> bool {
    exchanged(
        replies,
        outcomes,
        k,
        StoreCall::FindByIdentity {
            fingerprint: parsed.fingerprint,
            global: asked(outcomes).global,
            owner_uid: asked(outcomes).owner_uid,
        },
        StoreReply::Record(Ok(None)),
    )
}

/// Before step `k`, it was found that nobody in the scope has the name.
pub open spec fn name_found_free(
    name: String,
    global: bool,
    owner_uid: Option<u32>,
    replies: Seq<StoreReply>,
    outcomes: Seq<DispatchOutcome>,
    k: int,
) -> bool {
    exchanged(
        replies,
        outcomes,
        k,
        StoreCall::FindByName { name, global, owner_uid },
        StoreReply::Record(Ok(None)),
    )
}

/// Before step `k`, it was found that nobody but `existing` has the name.
pub open spec fn name_found_own(
    name: String,
    existing: StoredConnection,
    replies: Seq<StoreReply>,
    outcomes: Seq<DispatchOutcome>,
    k: int,
) -> bool {
    exists|other: StoredConnection| #[trigger]
        read_by(
            replies,
            outcomes,
            k,
            StoreCall::FindByName {
                name,
                global: existing.global,
                owner_uid: existing.owner_uid,
            },
            other,
        ) && other.id.same(existing.id)
}

/// The name that the addition gives to new content is free, or the caller does
/// not mind, or there is none.
spec fn new_name_cleared(
    replies: Seq<StoreReply>,
    outcomes: Seq<DispatchOutcome>,
    k: int,
) -> bool {
    let own = asked(outcomes);
    own.name matches Some(name) ==> own.force || name_found_free(
        name,
        own.global,
        own.owner_uid,
        replies,
        outcomes,
        k,
    )
}

/// The name that the addition gives to `existing` is its own or free, or the
/// caller does not mind, or there is none.
spec fn changed_name_cleared(
    existing: StoredConnection,
    replies: Seq<StoreReply>,
    outcomes: Seq<DispatchOutcome>,
    k: int,
) -> bool {
    let own = asked(outcomes);
    add::renames(own.name, existing.name) ==> own.force || name_found_free(
        own.name->0,
        existing.global,
        existing.owner_uid,
        replies,
        outcomes,
        k,
    ) || name_found_own(own.name->0, existing, replies, outcomes, k)
}

spec fn new_on_course(
    new: NewConnection,
    replies: Seq<StoreReply>,
    outcomes: Seq<DispatchOutcome>,
    k: int,
) -> bool {
    &&& parsed_as(replies, outcomes, k, new.parsed)
    &&& found_nothing_identical(replies, outcomes, k, new.parsed)
    &&& new == add::new_connection(asked(outcomes), new.parsed)
    &&& new_name_cleared(replies, outcomes, k)
}

spec fn change_on_course(
    change: RecordChange,
    replies: Seq<StoreReply>,
    outcomes: Seq<DispatchOutcome>,
    k: int,
) -> bool {
    let own = asked(outcomes);
    &&& change == (RecordChange {
        existing: change.existing,
        name: own.name,
        start_mode: own.start_mode,
    })
    &&& found_identical(replies, outcomes, k, change.existing)
}

spec fn add_on_course(
    request: PrivilegedRequest,
    replies: Seq<StoreReply>,
    outcomes: Seq<DispatchOutcome>,
    k: int,
) -> bool {
    let own = asked(outcomes);
    match outcomes[k] {
        DispatchOutcome::Immediate(_) => true,
        DispatchOutcome::Ask { state: HandlerState::Add(state), call } => match state {
            AddState::Parsing(request) => {
                &&& k == 0
                &&& request == own
                &&& call == StoreCall::ParseConfig { conf_text: own.conf_text }
            },
            AddState::LockingIndex(request, parsed) => {
                &&& k == 1
                &&& request == own
                &&& parsed_as(replies, outcomes, k, parsed)
                &&& call == StoreCall::LockIndex
            },
            AddState::FindingIdentity(request, parsed) => {
                &&& k == 2
                &&& request == own
                &&& parsed_as(replies, outcomes, k, parsed)
                &&& call == StoreCall::FindByIdentity {
                    fingerprint: parsed.fingerprint,
                    global: own.global,
                    owner_uid: own.owner_uid,
                }
            },
            AddState::FindingName(request, parsed) => {
                &&& request == own
                &&& parsed_as(replies, outcomes, k, parsed)
                &&& found_nothing_identical(replies, outcomes, k, parsed)
                &&& !own.force
                &&& own.name matches Some(name) && call == StoreCall::FindByName {
                    name,
                    global: own.global,
                    owner_uid: own.owner_uid,
                }
            },
            AddState::Authorizing(new) => {
                &&& new_on_course(new, replies, outcomes, k)
                &&& own.auth matches Some(external_form) && call == StoreCall::VerifyAdmin {
                    external_form,
                }
            },
            AddState::Allocating(new) => {
                &&& new_on_course(new, replies, outcomes, k)
                &&& admitted(request, replies, outcomes, k)
                &&& call == StoreCall::AllocateInterface
            },
            AddState::ReadingClock(new, id, interface) => {
                &&& new_on_course(new, replies, outcomes, k)
                &&& admitted(request, replies, outcomes, k)
                &&& exchanged(
                    replies,
                    outcomes,
                    k,
                    StoreCall::AllocateInterface,
                    StoreReply::Allocated(Ok((id, interface))),
                )
                &&& call == StoreCall::Now
            },
            AddState::Creating(id) => {
                &&& call matches StoreCall::Create { record }
                &&& admitted(request, replies, outcomes, k)
                &&& exchanged(
                    replies,
                    outcomes,
                    k,
                    StoreCall::AllocateInterface,
                    StoreReply::Allocated(Ok((id, record.interface))),
                )
                &&& exists|new: NewConnection| #[trigger]
                    new_on_course(new, replies, outcomes, k) && record == add::new_record(
                        new,
                        id,
                        record.interface,
                        record.created_at,
                    )
            },
        },
        DispatchOutcome::Ask { state: HandlerState::Reconcile(state), call } => match state {
            ReconcileState::FindingName(change, auth) => {
                &&& change_on_course(change, replies, outcomes, k)
                &&& auth == own.auth
                &&& !own.force
                &&& own.name matches Some(name) && call == StoreCall::FindByName {
                    name,
                    global: change.existing.global,
                    owner_uid: change.existing.owner_uid,
                }
            },
            ReconcileState::Authorizing(change) => {
                &&& change_on_course(change, replies, outcomes, k)
                &&& add::elevates(change.existing, own.start_mode)
                &&& changed_name_cleared(change.existing, replies, outcomes, k)
                &&& own.auth matches Some(external_form) && call == StoreCall::VerifyAdmin {
                    external_form,
                }
            },
            ReconcileState::Locking(change) => {
                &&& change_on_course(change, replies, outcomes, k)
                &&& changed_name_cleared(change.existing, replies, outcomes, k)
                &&& add::elevates(change.existing, change.start_mode) ==> admitted(
                    request,
                    replies,
                    outcomes,
                    k,
                )
                &&& call == StoreCall::LockConnection { id: change.existing.id }
            },
            ReconcileState::ReadingClock(change) => {
                &&& change_on_course(change, replies, outcomes, k)
                &&& changed_name_cleared(change.existing, replies, outcomes, k)
                &&& add::elevates(change.existing, change.start_mode) ==> admitted(
                    request,
                    replies,
                    outcomes,
                    k,
                )
                &&& call == StoreCall::Now
            },
            ReconcileState::Updating(id) => {
                &&& call matches StoreCall::Update { record: after }
                &&& exists|change: RecordChange| #[trigger]
                    change_on_course(change, replies, outcomes, k) && changed_name_cleared(
                        change.existing,
                        replies,
                        outcomes,
                        k,
                    ) && (add::elevates(change.existing, change.start_mode) ==> admitted(
                        request,
                        replies,
                        outcomes,
                        k,
                    )) && id == change.existing.id && after == add::changed_record(
                        change,
                        after.updated_at,
                    )
            },
        },
        _ => false,
    }
}

proof fn lemma_addition_later(
    existing: StoredConnection,
    parsed: ParsedConfig,
    replies: Seq<StoreReply>,
    outcomes: Seq<DispatchOutcome>,
    k: int,
)
    ensures
        parsed_as(replies, outcomes, k, parsed) ==> parsed_as(replies, outcomes, k + 1, parsed),
        found_nothing_identical(replies, outcomes, k, parsed) ==> found_nothing_identical(
            replies,
            outcomes,
            k + 1,
            parsed,
        ),
        found_identical(replies, outcomes, k, existing) ==> found_identical(
            replies,
            outcomes,
            k + 1,
            existing,
        ),
        new_name_cleared(replies, outcomes, k) ==> new_name_cleared(replies, outcomes, k + 1),
        changed_name_cleared(existing, replies, outcomes, k) ==> changed_name_cleared(
            existing,
            replies,
            outcomes,
            k + 1,
        ),
{
    let own = asked(outcomes);
    if parsed_as(replies, outcomes, k, parsed) {
        lemma_exchanged_later(
            replies,
            outcomes,
            k,
            StoreCall::ParseConfig { conf_text: own.conf_text },
            StoreReply::Parsed(Ok(parsed)),
        );
    }
    if found_nothing_identical(replies, outcomes, k, parsed) {
        lemma_exchanged_later(
            replies,
            outcomes,
            k,
            StoreCall::FindByIdentity {
                fingerprint: parsed.fingerprint,
                global: own.global,
                owner_uid: own.owner_uid,
            },
            StoreReply::Record(Ok(None)),
        );
    }
    if found_identical(replies, outcomes, k, existing) {
        let own_parsed = choose|parsed: ParsedConfig| #[trigger]
            parsed_as(replies, outcomes, k, parsed) && read_by(
                replies,
                outcomes,
                k,
                StoreCall::FindByIdentity {
                    fingerprint: parsed.fingerprint,
                    global: own.global,
                    owner_uid: own.owner_uid,
                },
                existing,
            );
        lemma_exchanged_later(
            replies,
            outcomes,
            k,
            StoreCall::ParseConfig { conf_text: own.conf_text },
            StoreReply::Parsed(Ok(own_parsed)),
        );
        lemma_exchanged_later(
            replies,
            outcomes,
            k,
            StoreCall::FindByIdentity {
                fingerprint: own_parsed.fingerprint,
                global: own.global,
                owner_uid: own.owner_uid,
            },
            StoreReply::Record(Ok(Some(existing))),
        );
        assert(parsed_as(replies, outcomes, k + 1, own_parsed));
    }
    if let Some(name) = own.name {
        let new_scope = StoreCall::FindByName {
            name,
            global: own.global,
            owner_uid: own.owner_uid,
        };
        let old_scope = StoreCall::FindByName {
            name,
            global: existing.global,
            owner_uid: existing.owner_uid,
        };
        let free = StoreReply::Record(Ok(None));
        if exchanged(replies, outcomes, k, new_scope, free) {
            lemma_exchanged_later(replies, outcomes, k, new_scope, free);
        }
        if exchanged(replies, outcomes, k, old_scope, free) {
            lemma_exchanged_later(replies, outcomes, k, old_scope, free);
        }
        if name_found_own(name, existing, replies, outcomes, k) {
            let other = choose|other: StoredConnection| #[trigger]
                read_by(replies, outcomes, k, old_scope, other) && other.id.same(existing.id);
            lemma_exchanged_later(
                replies,
                outcomes,
                k,
                old_scope,
                StoreReply::Record(Ok(Some(other))),
            );
            assert(read_by(replies, outcomes, k + 1, old_scope, other));
        }
    }
}

proof fn lemma_addition(
    request: PrivilegedRequest,
    origin: PeerOrigin,
    sudo_uid: Option<Seq<char>>,
    replies: Seq<StoreReply>,
    outcomes: Seq<DispatchOutcome>,
    k: int,
)
    requires
        request is AddConnection,
        course(request, origin, sudo_uid, replies, outcomes),
        0 <= k < outcomes.len(),
    ensures
        add_on_course(request, replies, outcomes, k),
    decreases k,
{
    if k > 0 {
        let p = k - 1;
        let own = asked(outcomes);
        lemma_addition(request, origin, sudo_uid, replies, outcomes, p);
        assert(went_on(outcomes[0], replies[0], outcomes[1]));
        assert(own.auth == presented(request));
        assert(went_on(outcomes[p], replies[p], outcomes[p + 1]));
        lemma_later(request, origin, arbitrary(), replies, outcomes, p);
        lemma_exchanged_now(replies, outcomes, p, called(outcomes[p])->0);
        match outcomes[p] {
            DispatchOutcome::Ask { state: HandlerState::Add(state), call } => match state {
                AddState::Parsing(_) => {},
                AddState::LockingIndex(_, parsed) => {
                    lemma_addition_later(arbitrary(), parsed, replies, outcomes, p);
                },
                AddState::FindingIdentity(_, parsed) => {
                    lemma_addition_later(arbitrary(), parsed, replies, outcomes, p);
                    if let StoreReply::Record(Ok(Some(existing))) = replies[p] {
                        assert(read_by(replies, outcomes, k, call, existing));
                        assert(found_identical(replies, outcomes, k, existing));
                    }
                },
                AddState::FindingName(_, parsed) => {
                    lemma_addition_later(arbitrary(), parsed, replies, outcomes, p);
                },
                AddState::Authorizing(new) => {
                    lemma_addition_later(arbitrary(), new.parsed, replies, outcomes, p);
                },
                AddState::Allocating(new) => {
                    lemma_addition_later(arbitrary(), new.parsed, replies, outcomes, p);
                },
                AddState::ReadingClock(new, id, interface) => {
                    lemma_addition_later(arbitrary(), new.parsed, replies, outcomes, p);
                    lemma_exchanged_later(
                        replies,
                        outcomes,
                        p,
                        StoreCall::AllocateInterface,
                        StoreReply::Allocated(Ok((id, interface))),
                    );
                    assert(new_on_course(new, replies, outcomes, k));
                },
                AddState::Creating(_) => {},
            },
            DispatchOutcome::Ask { state: HandlerState::Reconcile(state), call } => match state {
                ReconcileState::FindingName(change, _) => {
                    lemma_addition_later(change.existing, arbitrary(), replies, outcomes, p);
                    if let StoreReply::Record(Ok(Some(other))) = replies[p] {
                        assert(read_by(replies, outcomes, k, call, other));
                    }
                },
                ReconcileState::Authorizing(change) => {
                    lemma_addition_later(change.existing, arbitrary(), replies, outcomes, p);
                },
                ReconcileState::Locking(change) => {
                    lemma_addition_later(change.existing, arbitrary(), replies, outcomes, p);
                },
                ReconcileState::ReadingClock(change) => {
                    lemma_addition_later(change.existing, arbitrary(), replies, outcomes, p);
                    assert(change_on_course(change, replies, outcomes, k));
                },
                ReconcileState::Updating(_) => {},
            },
            _ => {},
        }
    }
}

// ---- questions --------------------------------------------------------------

spec fn get_on_course(
    id: ConnectionId,
    origin: PeerOrigin,
    replies: Seq<StoreReply>,
    outcomes: Seq<DispatchOutcome>,
    k: int,
) -> bool {
    match outcomes[k] {
        DispatchOutcome::Immediate(response) => response is Connection ==> access_granted(
            origin,
            id,
            replies,
            outcomes,
            k,
        ),
        DispatchOutcome::Ask { state: HandlerState::Get(state), call } => match state {
            GetState::Loading(caller, wanted) => {
                &&& caller == origin
                &&& wanted == id
                &&& call == StoreCall::Load { id }
            },
            GetState::Checking(_) => {
                &&& call == StoreCall::IsActive { id }
                &&& access_granted(origin, id, replies, outcomes, k)
            },
        },
        _ => false,
    }
}

proof fn lemma_get(
    id: ConnectionId,
    origin: PeerOrigin,
    sudo_uid: Option<Seq<char>>,
    replies: Seq<StoreReply>,
    outcomes: Seq<DispatchOutcome>,
    k: int,
)
    requires
        course(
            PrivilegedRequest::GetConnection { id },
            origin,
            sudo_uid,
            replies,
            outcomes,
        ),
        0 <= k < outcomes.len(),
    ensures
        get_on_course(id, origin, replies, outcomes, k),
    decreases k,
{
    if k > 0 {
        let p = k - 1;
        let request = PrivilegedRequest::GetConnection { id };
        lemma_get(id, origin, sudo_uid, replies, outcomes, p);
        assert(went_on(outcomes[p], replies[p], outcomes[p + 1]));
        lemma_later(request, origin, id, replies, outcomes, p);
        lemma_exchanged_now(replies, outcomes, p, called(outcomes[p])->0);
        if let StoreReply::Record(Ok(Some(record))) = replies[p] {
            assert(called(outcomes[p]) == Some(StoreCall::Load { id }) ==> read_by(
                replies,
                outcomes,
                k,
                StoreCall::Load { id },
                record,
            ));
        }
    }
}

/// The interface that a request asks about.
pub open spec fn interface_asked(request: PrivilegedRequest) -> Option<String> {
    match request {
        PrivilegedRequest::WgShow { interface } => Some(interface),
        PrivilegedRequest::NetworkOverview { interface } => Some(interface),
        PrivilegedRequest::InterfaceActive { interface } => Some(interface),
        _ => None,
    }
}

/// Before step `k`, the connection of the interface was looked up, and there is
/// none or the caller may access it.
pub open spec fn interface_granted(
    origin: PeerOrigin,
    interface: String,
    replies: Seq<StoreReply>,
    outcomes: Seq<DispatchOutcome>,
    k: int,
) -> bool {
    exists|found: Option<StoredConnection>| #[trigger]
        exchanged(
            replies,
            outcomes,
            k,
            StoreCall::FindByInterface { interface },
            StoreReply::Record(Ok(found)),
        ) && (found matches Some(record) ==> dispatch::may_access(record, origin))
}

spec fn interface_on_course(
    interface: String,
    origin: PeerOrigin,
    replies: Seq<StoreReply>,
    outcomes: Seq<DispatchOutcome>,
    k: int,
) -> bool {
    match outcomes[k] {
        DispatchOutcome::Immediate(response) => response is Text || response is Bool
            ==> interface_granted(origin, interface, replies, outcomes, k),
        DispatchOutcome::Ask { state: HandlerState::Interface(state), call } => match state {
            InterfaceState::Gate(caller, _, wanted) => {
                &&& caller == origin
                &&& wanted == interface
                &&& call == StoreCall::FindByInterface { interface }
            },
            InterfaceState::Reporting => {
                &&& call == StoreCall::WgShow { interface }
                &&& interface_granted(origin, interface, replies, outcomes, k)
            },
            InterfaceState::Overviewing => {
                &&& call == StoreCall::NetworkOverview { interface }
                &&& interface_granted(origin, interface, replies, outcomes, k)
            },
            InterfaceState::Looking => {
                &&& call matches StoreCall::SocketExists { path }
                &&& interface_granted(origin, interface, replies, outcomes, k)
            },
        },
        _ => false,
    }
}

proof fn lemma_interface(
    request: PrivilegedRequest,
    interface: String,
    origin: PeerOrigin,
    sudo_uid: Option<Seq<char>>,
    replies: Seq<StoreReply>,
    outcomes: Seq<DispatchOutcome>,
    k: int,
)
    requires
        interface_asked(request) == Some(interface),
        course(request, origin, sudo_uid, replies, outcomes),
        0 <= k < outcomes.len(),
    ensures
        interface_on_course(interface, origin, replies, outcomes, k),
    decreases k,
{
    if k > 0 {
        let p = k - 1;
        let call = StoreCall::FindByInterface { interface };
        lemma_interface(request, interface, origin, sudo_uid, replies, outcomes, p);
        assert(went_on(outcomes[p], replies[p], outcomes[p + 1]));
        lemma_exchanged_now(replies, outcomes, p, called(outcomes[p])->0);
        if interface_granted(origin, interface, replies, outcomes, p) {
            let found = choose|found: Option<StoredConnection>| #[trigger]
                exchanged(replies, outcomes, p, call, StoreReply::Record(Ok(found))) && (
                found matches Some(record) ==> dispatch::may_access(record, origin));
            lemma_exchanged_later(replies, outcomes, p, call, StoreReply::Record(Ok(found)));
        }
        if let StoreReply::Record(Ok(found)) = replies[p] {
            assert(called(outcomes[p]) == Some(call) ==> exchanged(
                replies,
                outcomes,
                k,
                call,
                StoreReply::Record(Ok(found)),
            ));
        }
    }
}

/// Before step `k`, all records were read, and `records` are those of the scope.
pub open spec fn scope_read(
    scope: ConnectionScope,
    origin: PeerOrigin,
    records: Seq<StoredConnection>,
    replies: Seq<StoreReply>,
    outcomes: Seq<DispatchOutcome>,
    k: int,
) -> bool {
    exists|all: Vec<StoredConnection>| #[trigger]
        exchanged(
            replies,
            outcomes,
            k,
            StoreCall::LoadAll,
            StoreReply::Records(Ok(all)),
        ) && records == query::scoped(all@, scope, origin)
}

/// `list` shows `records`, one by one, without their fingerprints.
pub open spec fn list_shows(
    list: Seq<ConnectionSummary>,
    records: Seq<StoredConnection>,
) -> bool {
    &&& list.len() == records.len()
    &&& forall|i: int|
        0 <= i < list.len() ==> query::shows(#[trigger] list[i], records[i], list[i].connected, false)
}

spec fn list_on_course(
    scope: ConnectionScope,
    origin: PeerOrigin,
    replies: Seq<StoreReply>,
    outcomes: Seq<DispatchOutcome>,
    k: int,
) -> bool {
    let allowed = scope == ConnectionScope::All ==> origin.root();
    match outcomes[k] {
        DispatchOutcome::Immediate(response) => response matches PrivilegedResponse::ConnectionList(
            list,
        ) ==> allowed && exists|records: Seq<StoredConnection>| #[trigger]
            scope_read(scope, origin, records, replies, outcomes, k) && list_shows(list@, records),
        DispatchOutcome::Ask { state: HandlerState::List(state), call } => match state {
            ListState::Loading(caller, wanted) => {
                &&& allowed
                &&& caller == origin
                &&& wanted == scope
                &&& call == StoreCall::LoadAll
            },
            ListState::Checking(records, connected) => {
                &&& allowed
                &&& scope_read(scope, origin, records@, replies, outcomes, k)
                &&& connected@.len() < records@.len()
                &&& call == StoreCall::IsActive { id: records@[connected@.len() as int].id }
            },
        },
        _ => false,
    }
}

proof fn lemma_list(
    scope: ConnectionScope,
    origin: PeerOrigin,
    sudo_uid: Option<Seq<char>>,
    replies: Seq<StoreReply>,
    outcomes: Seq<DispatchOutcome>,
    k: int,
)
    requires
        course(
            PrivilegedRequest::ListConnections { scope },
            origin,
            sudo_uid,
            replies,
            outcomes,
        ),
        0 <= k < outcomes.len(),
    ensures
        list_on_course(scope, origin, replies, outcomes, k),
    decreases k,
{
    if k > 0 {
        let p = k - 1;
        lemma_list(scope, origin, sudo_uid, replies, outcomes, p);
        assert(went_on(outcomes[p], replies[p], outcomes[p + 1]));
        lemma_exchanged_now(replies, outcomes, p, called(outcomes[p])->0);
        match outcomes[p] {
            DispatchOutcome::Ask { state: HandlerState::List(state), call } => match state {
                ListState::Loading(_, _) => {
                    if let StoreReply::Records(Ok(all)) = replies[p] {
                        let records = query::scoped(all@, scope, origin);
                        assert(exchanged(
                            replies,
                            outcomes,
                            k,
                            StoreCall::LoadAll,
                            StoreReply::Records(Ok(all)),
                        ));
                        assert(scope_read(scope, origin, records, replies, outcomes, k));
                    }
                },
                ListState::Checking(records, _) => {
                    let all = choose|all: Vec<StoredConnection>| #[trigger]
                        exchanged(
                            replies,
                            outcomes,
                            p,
                            StoreCall::LoadAll,
                            StoreReply::Records(Ok(all)),
                        ) && records@ == query::scoped(all@, scope, origin);
                    lemma_exchanged_later(
                        replies,
                        outcomes,
                        p,
                        StoreCall::LoadAll,
                        StoreReply::Records(Ok(all)),
                    );
                    assert(scope_read(scope, origin, records@, replies, outcomes, k));
                },
            },
            _ => {},
        }
    }
}

// ---- all requests -----------------------------------------------------------

spec fn on_course(
    request: PrivilegedRequest,
    origin: PeerOrigin,
    replies: Seq<StoreReply>,
    outcomes: Seq<DispatchOutcome>,
    k: int,
) -> bool {
    match request {
        PrivilegedRequest::AddConnection { .. } => add_on_course(request, replies, outcomes, k),
        PrivilegedRequest::RemoveConnection { id, auth_external_form } => removal_on_course(
            id,
            auth_external_form,
            origin,
            replies,
            outcomes,
            k,
        ),
        PrivilegedRequest::ConnectConnection { id, debug, reason } => connect_on_course(
            id,
            debug,
            reason,
            origin,
            replies,
            outcomes,
            k,
        ),
        PrivilegedRequest::DisconnectConnection { id, reason } => disconnect_on_course(
            id,
            reason,
            origin,
            replies,
            outcomes,
            k,
        ),
        PrivilegedRequest::SetConnectionMode { id, start_mode, auth_external_form } =>
            mode_on_course(id, start_mode, auth_external_form, origin, replies, outcomes, k),
        PrivilegedRequest::ListConnections { scope } => list_on_course(
            scope,
            origin,
            replies,
            outcomes,
            k,
        ),
        PrivilegedRequest::GetConnection { id } => get_on_course(id, origin, replies, outcomes, k),
        _ => interface_asked(request) matches Some(interface) && interface_on_course(
            interface,
            origin,
            replies,
            outcomes,
            k,
        ),
    }
}

proof fn lemma_on_course(
    request: PrivilegedRequest,
    origin: PeerOrigin,
    sudo_uid: Option<Seq<char>>,
    replies: Seq<StoreReply>,
    outcomes: Seq<DispatchOutcome>,
    k: int,
)
    requires
        course(request, origin, sudo_uid, replies, outcomes),
        0 <= k < outcomes.len(),
    ensures
        on_course(request, origin, replies, outcomes, k),
{
    match request {
        PrivilegedRequest::AddConnection { .. } => {
            lemma_addition(request, origin, sudo_uid, replies, outcomes, k);
        },
        PrivilegedRequest::RemoveConnection { id, auth_external_form } => {
            lemma_removal(id, auth_external_form, origin, sudo_uid, replies, outcomes, k);
        },
        PrivilegedRequest::ConnectConnection { id, debug, reason } => {
            lemma_connect(id, debug, reason, origin, sudo_uid, replies, outcomes, k);
        },
        PrivilegedRequest::DisconnectConnection { id, reason } => {
            lemma_disconnect(id, reason, origin, sudo_uid, replies, outcomes, k);
        },
        PrivilegedRequest::SetConnectionMode { id, start_mode, auth_external_form } => {
            lemma_mode(id, start_mode, auth_external_form, origin, sudo_uid, replies, outcomes, k);
        },
        PrivilegedRequest::ListConnections { scope } => {
            lemma_list(scope, origin, sudo_uid, replies, outcomes, k);
        },
        PrivilegedRequest::GetConnection { id } => {
            lemma_get(id, origin, sudo_uid, replies, outcomes, k);
        },
        PrivilegedRequest::WgShow { interface } => {
            lemma_interface(request, interface, origin, sudo_uid, replies, outcomes, k);
        },
        PrivilegedRequest::NetworkOverview { interface } => {
            lemma_interface(request, interface, origin, sudo_uid, replies, outcomes, k);
        },
        PrivilegedRequest::InterfaceActive { interface } => {
            lemma_interface(request, interface, origin, sudo_uid, replies, outcomes, k);
        },
        _ => {},
    }
}

// ---- laws of the admin gate -------------------------------------------------

/// A record is created only by an addition, and only after the admin
/// credentials that the caller presented were verified: this is the only way in
/// which configuration content enters the store.
pub proof fn new_configuration_is_admitted(
    request: PrivilegedRequest,
    origin: PeerOrigin,
    sudo_uid: Option<Seq<char>>,
    replies: Seq<StoreReply>,
    outcomes: Seq<DispatchOutcome>,
    k: int,
    record: StoredConnection,
)
    requires
        course(request, origin, sudo_uid, replies, outcomes),
        0 <= k < outcomes.len(),
        called(outcomes[k]) == Some(StoreCall::Create { record }),
    ensures
        request is AddConnection,
        admitted(request, replies, outcomes, k),
{
    lemma_on_course(request, origin, sudo_uid, replies, outcomes, k);
}

/// Admin credentials are looked at only where they are needed: for content that is
/// not stored yet, for a removal, and for a change that makes a global connection
/// start by itself. Nothing else asks more of the caller than to own the
/// connection.
pub proof fn credentials_are_looked_at_only_where_needed(
    request: PrivilegedRequest,
    origin: PeerOrigin,
    sudo_uid: Option<Seq<char>>,
    replies: Seq<StoreReply>,
    outcomes: Seq<DispatchOutcome>,
    k: int,
    external_form: Vec<u8>,
)
    requires
        course(request, origin, sudo_uid, replies, outcomes),
        0 <= k < outcomes.len(),
        called(outcomes[k]) == Some(StoreCall::VerifyAdmin { external_form }),
    ensures
        presented(request) == Some(external_form),
        match request {
            PrivilegedRequest::RemoveConnection { .. } => true,
            PrivilegedRequest::AddConnection { start_mode, .. } => stores_new_content(
                replies,
                outcomes,
                k,
            ) || elevates_stored_content(start_mode, replies, outcomes, k),
            PrivilegedRequest::SetConnectionMode { id, start_mode, .. } => elevates_connection(
                id,
                start_mode,
                replies,
                outcomes,
                k,
            ),
            _ => false,
        },
{
    lemma_on_course(request, origin, sudo_uid, replies, outcomes, k);
    match request {
        PrivilegedRequest::AddConnection { .. } => {
            if k > 0 {
                assert(went_on(outcomes[0], replies[0], outcomes[1]));
            }
            if let DispatchOutcome::Ask { state: HandlerState::Add(AddState::Authorizing(new)), .. } =
                outcomes[k] {
                assert(parsed_as(replies, outcomes, k, new.parsed));
                assert(stores_new_content(replies, outcomes, k));
            }
            if let DispatchOutcome::Ask {
                state: HandlerState::Reconcile(ReconcileState::Authorizing(change)),
                ..
            } = outcomes[k] {
                assert(found_identical(replies, outcomes, k, change.existing));
            }
        },
        PrivilegedRequest::SetConnectionMode { id, start_mode, auth_external_form } => {
            if let DispatchOutcome::Ask {
                state: HandlerState::Mode(ModeState::Authorizing(record, _)),
                ..
            } = outcomes[k] {
                assert(read_by(replies, outcomes, k, StoreCall::Load { id }, record));
            }
        },
        _ => {},
    }
}

/// Before step `k`, the addition's content was found not to be stored yet.
pub open spec fn stores_new_content(
    replies: Seq<StoreReply>,
    outcomes: Seq<DispatchOutcome>,
    k: int,
) -> bool {
    exists|parsed: ParsedConfig| #[trigger]
        parsed_as(replies, outcomes, k, parsed) && found_nothing_identical(
            replies,
            outcomes,
            k,
            parsed,
        )
}

/// Before step `k`, the addition's content was found stored, in a global record
/// that the addition makes start by itself.
pub open spec fn elevates_stored_content(
    start_mode: ConnectionStartMode,
    replies: Seq<StoreReply>,
    outcomes: Seq<DispatchOutcome>,
    k: int,
) -> bool {
    exists|existing: StoredConnection| #[trigger]
        found_identical(replies, outcomes, k, existing) && add::elevates(existing, start_mode)
}

/// Before step `k`, the connection was read, and it is a global one that the start
/// mode makes start by itself.
pub open spec fn elevates_connection(
    id: ConnectionId,
    start_mode: ConnectionStartMode,
    replies: Seq<StoreReply>,
    outcomes: Seq<DispatchOutcome>,
    k: int,
) -> bool {
    exists|record: StoredConnection| #[trigger]
        read_by(replies, outcomes, k, StoreCall::Load { id }, record) && add::elevates(
            record,
            start_mode,
        )
}

/// A record is removed only by a removal of that very connection, only after the
/// admin credentials that the caller presented were verified, and only when its
/// tunnel was found to be down.
pub proof fn removal_is_admitted(
    request: PrivilegedRequest,
    origin: PeerOrigin,
    sudo_uid: Option<Seq<char>>,
    replies: Seq<StoreReply>,
    outcomes: Seq<DispatchOutcome>,
    k: int,
    id: ConnectionId,
)
    requires
        course(request, origin, sudo_uid, replies, outcomes),
        0 <= k < outcomes.len(),
        called(outcomes[k]) == Some(StoreCall::Remove { id }),
    ensures
        request == (PrivilegedRequest::RemoveConnection {
            id,
            auth_external_form: presented(request),
        }),
        admitted(request, replies, outcomes, k),
        exchanged(
            replies,
            outcomes,
            k,
            StoreCall::IsActive { id },
            StoreReply::Active(Ok(false)),
        ),
{
    lemma_on_course(request, origin, sudo_uid, replies, outcomes, k);
}

/// A removal does not look at the credentials before the connection is known to
/// exist, to be the caller's, and to be down.
pub proof fn removal_looks_at_credentials_last(
    id: ConnectionId,
    auth_external_form: Option<Vec<u8>>,
    origin: PeerOrigin,
    sudo_uid: Option<Seq<char>>,
    replies: Seq<StoreReply>,
    outcomes: Seq<DispatchOutcome>,
    k: int,
    external_form: Vec<u8>,
)
    requires
        course(
            PrivilegedRequest::RemoveConnection { id, auth_external_form },
            origin,
            sudo_uid,
            replies,
            outcomes,
        ),
        0 <= k < outcomes.len(),
        called(outcomes[k]) == Some(StoreCall::VerifyAdmin { external_form }),
    ensures
        auth_external_form == Some(external_form),
        access_granted(origin, id, replies, outcomes, k),
        exchanged(
            replies,
            outcomes,
            k,
            StoreCall::IsActive { id },
            StoreReply::Active(Ok(false)),
        ),
{
    lemma_removal(id, auth_external_form, origin, sudo_uid, replies, outcomes, k);
}

/// The user asks for a connection to come up.
pub open spec fn users_connect(request: PrivilegedRequest) -> bool {
    request matches PrivilegedRequest::ConnectConnection { id: _, debug: _, reason }
        && reason == ConnectReason::User
}

/// The user asks for a connection to go down.
pub open spec fn users_disconnect(request: PrivilegedRequest) -> bool {
    request matches PrivilegedRequest::DisconnectConnection { id: _, reason }
        && reason == DisconnectReason::User
}

/// What an update may do to the record that it was made from. It never touches
/// the configuration; it makes a global connection start by itself only for
/// verified admin credentials; it renames only where an addition asks for it;
/// and it keeps the user's wish: that the connection stay down is recorded only
/// by the user's own disconnect, and forgotten only by the user's own connect or
/// by a change of the start mode to automatic.
pub open spec fn proper_update(
    request: PrivilegedRequest,
    before: StoredConnection,
    after: StoredConnection,
    admitted: bool,
) -> bool {
    &&& same_content(after, before)
    &&& add::elevates(before, after.start_mode) ==> admitted
    &&& after.name != before.name ==> request is AddConnection
    &&& after.start_mode != before.start_mode ==> request is AddConnection
        || request is SetConnectionMode
    &&& after.user_disconnected && !before.user_disconnected ==> users_disconnect(request)
    &&& before.user_disconnected && !after.user_disconnected ==> users_connect(request) || (
    after.start_mode != before.start_mode && after.start_mode == ConnectionStartMode::Automatic)
}

/// Every update is made from a record that was read before, and does no more to
/// it than it may.
pub proof fn updates_are_proper(
    request: PrivilegedRequest,
    origin: PeerOrigin,
    sudo_uid: Option<Seq<char>>,
    replies: Seq<StoreReply>,
    outcomes: Seq<DispatchOutcome>,
    k: int,
    after: StoredConnection,
)
    requires
        course(request, origin, sudo_uid, replies, outcomes),
        0 <= k < outcomes.len(),
        called(outcomes[k]) == Some(StoreCall::Update { record: after }),
    ensures
        exists|call: StoreCall, before: StoredConnection| #[trigger]
            read_by(replies, outcomes, k, call, before) && proper_update(
                request,
                before,
                after,
                admitted(request, replies, outcomes, k),
            ),
{
    lemma_on_course(request, origin, sudo_uid, replies, outcomes, k);
    match request {
        PrivilegedRequest::AddConnection { .. } => {
            let admitted_now = admitted(request, replies, outcomes, k);
            let change = choose|change: RecordChange| #[trigger]
                change_on_course(change, replies, outcomes, k) && changed_name_cleared(
                    change.existing,
                    replies,
                    outcomes,
                    k,
                ) && (add::elevates(change.existing, change.start_mode) ==> admitted_now) && after
                    == add::changed_record(change, after.updated_at);
            let own = asked(outcomes);
            let parsed = choose|parsed: ParsedConfig| #[trigger]
                parsed_as(replies, outcomes, k, parsed) && read_by(
                    replies,
                    outcomes,
                    k,
                    StoreCall::FindByIdentity {
                        fingerprint: parsed.fingerprint,
                        global: own.global,
                        owner_uid: own.owner_uid,
                    },
                    change.existing,
                );
            let call = StoreCall::FindByIdentity {
                fingerprint: parsed.fingerprint,
                global: own.global,
                owner_uid: own.owner_uid,
            };
            assert(read_by(replies, outcomes, k, call, change.existing));
            assert(proper_update(request, change.existing, after, admitted_now));
        },
        PrivilegedRequest::SetConnectionMode { id, start_mode, auth_external_form: _ } => {
            let admitted_now = admitted(request, replies, outcomes, k);
            let record = choose|record: StoredConnection| #[trigger]
                own_record(origin, id, replies, outcomes, k, record) && record.start_mode
                    != start_mode && (add::elevates(record, start_mode) ==> admitted_now) && after
                    == crate::privileged::change::mode_set(record, start_mode, after.updated_at);
            assert(read_by(replies, outcomes, k, StoreCall::Load { id }, record));
            assert(proper_update(request, record, after, admitted_now));
        },
        _ => {},
    }
}

// ---- laws of access ---------------------------------------------------------

/// The connection that a request is about.
pub open spec fn connection_asked(request: PrivilegedRequest) -> Option<ConnectionId> {
    match request {
        PrivilegedRequest::RemoveConnection { id, auth_external_form: _ } => Some(id),
        PrivilegedRequest::ConnectConnection { id, debug: _, reason: _ } => Some(id),
        PrivilegedRequest::DisconnectConnection { id, reason: _ } => Some(id),
        PrivilegedRequest::SetConnectionMode { id, start_mode: _, auth_external_form: _ } =>
            Some(id),
        PrivilegedRequest::GetConnection { id } => Some(id),
        _ => None,
    }
}

/// Something is done to a connection, or something of it is shown, or the
/// request is to go on apart from the others.
pub open spec fn touches(outcome: DispatchOutcome) -> bool {
    ||| outcome is Pending
    ||| outcome matches DispatchOutcome::Immediate(PrivilegedResponse::Connection(_))
    ||| called(outcome) matches Some(call) && (call is Update || call is Remove || call is Connect
        || call is Disconnect || call is IsActive || call is VerifyAdmin)
}

/// A request about a connection does nothing to it, shows nothing of it and
/// occupies no worker before the record was read and found to be accessible to
/// the caller: a record of the caller's own, or any record where the caller is
/// root.
pub proof fn only_the_owner_or_root(
    request: PrivilegedRequest,
    origin: PeerOrigin,
    sudo_uid: Option<Seq<char>>,
    replies: Seq<StoreReply>,
    outcomes: Seq<DispatchOutcome>,
    k: int,
    id: ConnectionId,
)
    requires
        course(request, origin, sudo_uid, replies, outcomes),
        0 <= k < outcomes.len(),
        connection_asked(request) == Some(id),
        touches(outcomes[k]),
    ensures
        access_granted(origin, id, replies, outcomes, k),
{
    lemma_on_course(request, origin, sudo_uid, replies, outcomes, k);
    match request {
        PrivilegedRequest::RemoveConnection { .. } => {
            lemma_no_connection_shown(request, origin, sudo_uid, replies, outcomes, k);
        },
        PrivilegedRequest::ConnectConnection { .. } => {
            lemma_no_connection_shown(request, origin, sudo_uid, replies, outcomes, k);
        },
        PrivilegedRequest::DisconnectConnection { .. } => {
            lemma_no_connection_shown(request, origin, sudo_uid, replies, outcomes, k);
        },
        PrivilegedRequest::SetConnectionMode { id, start_mode, auth_external_form } => {
            lemma_no_connection_shown(request, origin, sudo_uid, replies, outcomes, k);
            if let DispatchOutcome::Ask { state: HandlerState::Mode(state), call } = outcomes[k] {
                match state {
                    ModeState::Authorizing(record, _) => {
                        lemma_own_record_later(origin, id, replies, outcomes, k, record);
                    },
                    ModeState::Updating => {
                        let after = call->Update_record;
                        let record = choose|record: StoredConnection| #[trigger]
                            own_record(origin, id, replies, outcomes, k, record)
                                && record.start_mode != start_mode && (add::elevates(
                                record,
                                start_mode,
                            ) ==> admitted(request, replies, outcomes, k)) && after
                                == crate::privileged::change::mode_set(
                                record,
                                start_mode,
                                after.updated_at,
                            );
                        lemma_own_record_later(origin, id, replies, outcomes, k, record);
                    },
                    _ => {},
                }
            }
        },
        _ => {},
    }
}

/// A request that changes a connection does not show one.
proof fn lemma_no_connection_shown(
    request: PrivilegedRequest,
    origin: PeerOrigin,
    sudo_uid: Option<Seq<char>>,
    replies: Seq<StoreReply>,
    outcomes: Seq<DispatchOutcome>,
    k: int,
)
    requires
        course(request, origin, sudo_uid, replies, outcomes),
        0 <= k < outcomes.len(),
        connection_asked(request) is Some,
        !(request is GetConnection),
    ensures
        !(outcomes[k] matches DispatchOutcome::Immediate(PrivilegedResponse::Connection(_))),
{
    if k > 0 {
        lemma_on_course(request, origin, sudo_uid, replies, outcomes, k - 1);
        assert(went_on(outcomes[k - 1], replies[k - 1], outcomes[k]));
    }
}

/// A question about an interface is put to the machine, and answered, only after
/// the interface was found to belong to no stored connection or to one that the
/// caller may access.
pub proof fn interface_questions_are_gated(
    request: PrivilegedRequest,
    origin: PeerOrigin,
    sudo_uid: Option<Seq<char>>,
    replies: Seq<StoreReply>,
    outcomes: Seq<DispatchOutcome>,
    k: int,
    interface: String,
)
    requires
        course(request, origin, sudo_uid, replies, outcomes),
        0 <= k < outcomes.len(),
        interface_asked(request) == Some(interface),
        called(outcomes[k]) matches Some(call) ==> !(call is FindByInterface),
        !(outcomes[k] matches DispatchOutcome::Immediate(PrivilegedResponse::Error(_))),
    ensures
        interface_granted(origin, interface, replies, outcomes, k),
{
    lemma_interface(request, interface, origin, sudo_uid, replies, outcomes, k);
    if k > 0 {
        lemma_interface(request, interface, origin, sudo_uid, replies, outcomes, k - 1);
        assert(went_on(outcomes[k - 1], replies[k - 1], outcomes[k]));
    }
}

/// The record that a summary shows belongs to the scope.
proof fn lemma_scoped(
    records: Seq<StoredConnection>,
    scope: ConnectionScope,
    origin: PeerOrigin,
)
    ensures
        forall|i: int|
            0 <= i < query::scoped(records, scope, origin).len() ==> query::in_scope(
                #[trigger] query::scoped(records, scope, origin)[i],
                scope,
                origin,
            ),
    decreases records.len(),
{
    if records.len() > 0 {
        let before = query::scoped(records.drop_last(), scope, origin);
        lemma_scoped(records.drop_last(), scope, origin);
        assert forall|i: int| 0 <= i < query::scoped(records, scope, origin).len() implies
            query::in_scope(#[trigger] query::scoped(records, scope, origin)[i], scope, origin) by {
            if i < before.len() {
                assert(query::scoped(records, scope, origin)[i] == before[i]);
            }
        }
    }
}

/// A listing shows the records of its scope, all of them, in order and nothing
/// else, and never a fingerprint: of the caller's own connections only those
/// that the caller owns, of the global ones only those, and of everybody's only
/// to root.
pub proof fn listings_show_their_scope(
    scope: ConnectionScope,
    origin: PeerOrigin,
    sudo_uid: Option<Seq<char>>,
    replies: Seq<StoreReply>,
    outcomes: Seq<DispatchOutcome>,
    k: int,
    list: Vec<ConnectionSummary>,
)
    requires
        course(
            PrivilegedRequest::ListConnections { scope },
            origin,
            sudo_uid,
            replies,
            outcomes,
        ),
        0 <= k < outcomes.len(),
        outcomes[k] == DispatchOutcome::Immediate(PrivilegedResponse::ConnectionList(list)),
    ensures
        exists|records: Seq<StoredConnection>| #[trigger]
            scope_read(scope, origin, records, replies, outcomes, k) && list_shows(list@, records),
        forall|i: int| 0 <= i < list@.len() ==> (#[trigger] list@[i]).fingerprint is None,
        scope == ConnectionScope::Mine ==> forall|i: int|
            0 <= i < list@.len() ==> (#[trigger] list@[i]).owner_uid == Some(origin.uid_of()),
        scope == ConnectionScope::Global ==> forall|i: int|
            0 <= i < list@.len() ==> (#[trigger] list@[i]).global,
        scope == ConnectionScope::All ==> origin.root(),
{
    lemma_list(scope, origin, sudo_uid, replies, outcomes, k);
    let records = choose|records: Seq<StoredConnection>| #[trigger]
        scope_read(scope, origin, records, replies, outcomes, k) && list_shows(list@, records);
    let all = choose|all: Vec<StoredConnection>| #[trigger]
        exchanged(replies, outcomes, k, StoreCall::LoadAll, StoreReply::Records(Ok(all)))
            && records == query::scoped(all@, scope, origin);
    lemma_scoped(all@, scope, origin);
    assert forall|i: int| 0 <= i < list@.len() implies query::in_scope(
        #[trigger] records[i],
        scope,
        origin,
    ) && query::shows(list@[i], records[i], list@[i].connected, false) by {
        assert(query::shows(list@[i], records[i], list@[i].connected, false));
    }
}

// ---- laws of the user's wish ------------------------------------------------

/// A tunnel that the user wants down is taken down only after the record says
/// so: it said so already, or it was just written, or there is no record. So a
/// take-down that fails half-way still leaves the wish on record.
pub proof fn users_disconnect_is_recorded_first(
    id: ConnectionId,
    origin: PeerOrigin,
    sudo_uid: Option<Seq<char>>,
    replies: Seq<StoreReply>,
    outcomes: Seq<DispatchOutcome>,
    k: int,
    down: ConnectionId,
)
    requires
        course(
            PrivilegedRequest::DisconnectConnection { id, reason: DisconnectReason::User },
            origin,
            sudo_uid,
            replies,
            outcomes,
        ),
        0 <= k < outcomes.len(),
        called(outcomes[k]) == Some(StoreCall::Disconnect { id: down }),
    ensures
        down == id,
        just_written(true, replies, outcomes, k) || just_read_unwanted(id, replies, outcomes, k),
{
    lemma_disconnect(id, DisconnectReason::User, origin, sudo_uid, replies, outcomes, k);
}

/// A session that ends, or a daemon that goes away, takes tunnels down without
/// touching any record.
pub proof fn teardown_leaves_records_alone(
    id: ConnectionId,
    origin: PeerOrigin,
    sudo_uid: Option<Seq<char>>,
    replies: Seq<StoreReply>,
    outcomes: Seq<DispatchOutcome>,
    k: int,
)
    requires
        course(
            PrivilegedRequest::DisconnectConnection {
                id,
                reason: DisconnectReason::SessionTeardown,
            },
            origin,
            sudo_uid,
            replies,
            outcomes,
        ),
        0 <= k < outcomes.len(),
    ensures
        called(outcomes[k]) matches Some(call) ==> !(call is Update || call is Create
            || call is Remove),
{
    lemma_disconnect(id, DisconnectReason::SessionTeardown, origin, sudo_uid, replies, outcomes, k);
}

/// An automatic bring-up never touches a record, and brings a tunnel up only
/// when the record, read last and under the connection's lock, does not say that
/// the user took the connection down. However old the list was that the
/// connection was chosen from, a disconnect that has been recorded holds.
pub proof fn reconciliation_respects_users_disconnect(
    id: ConnectionId,
    debug: bool,
    origin: PeerOrigin,
    sudo_uid: Option<Seq<char>>,
    replies: Seq<StoreReply>,
    outcomes: Seq<DispatchOutcome>,
    k: int,
)
    requires
        course(
            PrivilegedRequest::ConnectConnection {
                id,
                debug,
                reason: ConnectReason::Reconciliation,
            },
            origin,
            sudo_uid,
            replies,
            outcomes,
        ),
        0 <= k < outcomes.len(),
    ensures
        called(outcomes[k]) matches Some(call) ==> !(call is Update || call is Create
            || call is Remove),
        called(outcomes[k]) matches Some(StoreCall::Connect { id: up, debug: _ }) ==> up == id
            && just_read_wanted(id, replies, outcomes, k),
{
    lemma_connect(
        id,
        debug,
        ConnectReason::Reconciliation,
        origin,
        sudo_uid,
        replies,
        outcomes,
        k,
    );
}

/// A tunnel that the user wants up is brought up only after the record does not
/// say otherwise: it did not, or it was just written, or there is no record.
pub proof fn users_connect_is_recorded_first(
    id: ConnectionId,
    debug: bool,
    origin: PeerOrigin,
    sudo_uid: Option<Seq<char>>,
    replies: Seq<StoreReply>,
    outcomes: Seq<DispatchOutcome>,
    k: int,
    up: ConnectionId,
    with_debug: bool,
)
    requires
        course(
            PrivilegedRequest::ConnectConnection { id, debug, reason: ConnectReason::User },
            origin,
            sudo_uid,
            replies,
            outcomes,
        ),
        0 <= k < outcomes.len(),
        called(outcomes[k]) == Some(StoreCall::Connect { id: up, debug: with_debug }),
    ensures
        up == id,
        with_debug == debug,
        just_written(false, replies, outcomes, k) || just_read_wanted(id, replies, outcomes, k),
{
    lemma_connect(id, debug, ConnectReason::User, origin, sudo_uid, replies, outcomes, k);
}

/// An automatic bring-up that finds, under the connection's lock, that the user
/// took the connection down is over: it reports success and does nothing.
pub proof fn reconciliation_backs_off(
    id: ConnectionId,
    debug: bool,
    origin: PeerOrigin,
    sudo_uid: Option<Seq<char>>,
    replies: Seq<StoreReply>,
    outcomes: Seq<DispatchOutcome>,
    k: int,
    record: StoredConnection,
)
    requires
        course(
            PrivilegedRequest::ConnectConnection {
                id,
                debug,
                reason: ConnectReason::Reconciliation,
            },
            origin,
            sudo_uid,
            replies,
            outcomes,
        ),
        0 <= k < replies.len(),
        just_locked(id, replies, outcomes, k),
        replies[k] == StoreReply::Record(Ok(Some(record))),
        record.user_disconnected,
    ensures
        outcomes[k + 1] == DispatchOutcome::Immediate(PrivilegedResponse::Unit),
{
    let reason = ConnectReason::Reconciliation;
    lemma_connect(id, debug, reason, origin, sudo_uid, replies, outcomes, k - 1);
    lemma_connect(id, debug, reason, origin, sudo_uid, replies, outcomes, k);
    assert(went_on(outcomes[k - 1], replies[k - 1], outcomes[k]));
    assert(went_on(outcomes[k], replies[k], outcomes[k + 1]));
}

// ---- laws of additions ------------------------------------------------------

/// What an addition stores agrees with itself: the stored text is the caller's
/// text with the MTU override applied, and the stored configuration and
/// fingerprint are what that very text was parsed as. The record belongs to the
/// caller, or to nobody where root asked for that, and starts out wanted.
pub proof fn stored_text_and_content_agree(
    request: PrivilegedRequest,
    origin: PeerOrigin,
    sudo_uid: Option<Seq<char>>,
    replies: Seq<StoreReply>,
    outcomes: Seq<DispatchOutcome>,
    k: int,
    record: StoredConnection,
)
    requires
        course(request, origin, sudo_uid, replies, outcomes),
        0 <= k < outcomes.len(),
        called(outcomes[k]) == Some(StoreCall::Create { record }),
    ensures
        exists|parsed: ParsedConfig| #[trigger]
            exchanged(
                replies,
                outcomes,
                k,
                StoreCall::ParseConfig { conf_text: record.raw_conf },
                StoreReply::Parsed(Ok(parsed)),
            ) && record.config == parsed.config && record.fingerprint == parsed.fingerprint,
        request matches PrivilegedRequest::AddConnection {
            conf_text,
            global,
            start_mode,
            name,
            mtu_override,
            force: _,
            auth_external_form: _,
        } && {
            &&& record.raw_conf@ == add::effective_conf(conf_text@, mtu_override)
            &&& record.global == global
            &&& record.start_mode == start_mode
            &&& record.name == name
        },
        record.global ==> origin.root() && record.owner_uid is None,
        !record.global ==> record.owner_uid == Some(origin.owner(sudo_uid)),
        !record.user_disconnected,
{
    lemma_on_course(request, origin, sudo_uid, replies, outcomes, k);
    if k > 0 {
        assert(went_on(outcomes[0], replies[0], outcomes[1]));
    }
    if let DispatchOutcome::Ask { state: HandlerState::Add(AddState::Creating(id)), call } =
        outcomes[k] {
        let new = choose|new: NewConnection| #[trigger]
            new_on_course(new, replies, outcomes, k) && record == add::new_record(
                new,
                id,
                record.interface,
                record.created_at,
            );
        assert(exchanged(
            replies,
            outcomes,
            k,
            StoreCall::ParseConfig { conf_text: record.raw_conf },
            StoreReply::Parsed(Ok(new.parsed)),
        ));
    }
}

/// Content that is stored already, submitted again under no other name and with
/// no other start mode, is answered with the stored connection's id; nothing is
/// written, and no credentials are looked at.
pub proof fn identical_resubmission_changes_nothing(
    request: PrivilegedRequest,
    origin: PeerOrigin,
    sudo_uid: Option<Seq<char>>,
    replies: Seq<StoreReply>,
    outcomes: Seq<DispatchOutcome>,
    k: int,
    existing: StoredConnection,
    j: int,
)
    requires
        request is AddConnection,
        course(request, origin, sudo_uid, replies, outcomes),
        0 <= k < replies.len(),
        called(outcomes[k]) matches Some(call) && call is FindByIdentity,
        replies[k] == StoreReply::Record(Ok(Some(existing))),
        !add::renames(asked(outcomes).name, existing.name),
        asked(outcomes).start_mode == existing.start_mode,
        0 <= j < outcomes.len(),
    ensures
        outcomes[k + 1] == DispatchOutcome::Immediate(
            PrivilegedResponse::ConnectionId(existing.id),
        ),
        called(outcomes[j]) matches Some(call) ==> call is ParseConfig || call is LockIndex
            || call is FindByIdentity,
{
    lemma_addition(request, origin, sudo_uid, replies, outcomes, k);
    assert(went_on(outcomes[k], replies[k], outcomes[k + 1]));
    assert(k == 2);
    lemma_addition(request, origin, sudo_uid, replies, outcomes, 0);
    assert(went_on(outcomes[0], replies[0], outcomes[1]));
    assert(went_on(outcomes[1], replies[1], outcomes[2]));
    if replies.len() > 3 {
        assert(went_on(outcomes[3], replies[3], outcomes[4]));
    }
    assert(outcomes.len() == 4);
}

/// The record has the name, in the scope.
pub open spec fn has_name(
    record: StoredConnection,
    name: Seq<char>,
    global: bool,
    owner_uid: Option<u32>,
) -> bool {
    &&& record.name matches Some(own) && own@ == name
    &&& record.global == global
    &&& record.owner_uid == owner_uid
}

/// The record has the content with the fingerprint, in the scope.
pub open spec fn has_identity(
    record: StoredConnection,
    fingerprint: Seq<char>,
    global: bool,
    owner_uid: Option<u32>,
) -> bool {
    &&& record.fingerprint@ == fingerprint
    &&& record.global == global
    &&& record.owner_uid == owner_uid
}

/// The two records have the same content, in the same scope.
pub open spec fn same_identity(a: StoredConnection, b: StoredConnection) -> bool {
    has_identity(b, a.fingerprint@, a.global, a.owner_uid)
}

/// No two records of one scope have the same content.
pub open spec fn identities_unique(store: Seq<StoredConnection>) -> bool {
    forall|i: int, j: int|
        0 <= i < store.len() && 0 <= j < store.len() && i != j ==> !same_identity(
            #[trigger] store[i],
            #[trigger] store[j],
        )
}

/// The two records have the same name, in the same scope.
pub open spec fn same_name(a: StoredConnection, b: StoredConnection) -> bool {
    a.name matches Some(name) && has_name(b, name@, a.global, a.owner_uid)
}

/// No two records of one scope have the same name.
pub open spec fn names_unique(store: Seq<StoredConnection>) -> bool {
    forall|i: int, j: int|
        0 <= i < store.len() && 0 <= j < store.len() && i != j ==> !same_name(
            #[trigger] store[i],
            #[trigger] store[j],
        )
}

/// No two records have the same id.
pub open spec fn ids_unique(store: Seq<StoredConnection>) -> bool {
    forall|i: int, j: int|
        0 <= i < store.len() && 0 <= j < store.len() && i != j ==> !(#[trigger] store[i]).id.same(
            (#[trigger] store[j]).id,
        )
}

/// The reply is true of the store: a lookup finds nothing only where nothing is
/// to be found, and finds only what is there.
pub open spec fn true_of(
    store: Seq<StoredConnection>,
    call: StoreCall,
    reply: StoreReply,
) -> bool {
    match (call, reply) {
        (StoreCall::FindByName { name, global, owner_uid }, StoreReply::Record(Ok(None))) =>
            forall|i: int|
                0 <= i < store.len() ==> !has_name(
                    #[trigger] store[i],
                    name@,
                    global,
                    owner_uid,
                ),
        (StoreCall::FindByName { name, global, owner_uid }, StoreReply::Record(Ok(Some(found)))) =>
            store.contains(found) && has_name(found, name@, global, owner_uid),
        (
            StoreCall::FindByIdentity { fingerprint, global, owner_uid },
            StoreReply::Record(Ok(None)),
        ) => forall|i: int|
            0 <= i < store.len() ==> !has_identity(
                #[trigger] store[i],
                fingerprint@,
                global,
                owner_uid,
            ),
        (
            StoreCall::FindByIdentity { fingerprint, global, owner_uid },
            StoreReply::Record(Ok(Some(found))),
        ) => store.contains(found) && has_identity(found, fingerprint@, global, owner_uid),
        _ => true,
    }
}

/// All replies before step `k` are true of the store.
pub open spec fn all_true_of(
    store: Seq<StoredConnection>,
    replies: Seq<StoreReply>,
    outcomes: Seq<DispatchOutcome>,
    k: int,
) -> bool {
    forall|j: int|
        0 <= j < k ==> (called(#[trigger] outcomes[j]) matches Some(call) ==> true_of(
            store,
            call,
            replies[j],
        ))
}

/// The record is of the scope that an addition is made in: a global one where root asks
/// for that, and otherwise one of the user that the caller acts for.
pub open spec fn in_own_scope(
    record: StoredConnection,
    request: PrivilegedRequest,
    origin: PeerOrigin,
    sudo_uid: Option<Seq<char>>,
) -> bool {
    request matches PrivilegedRequest::AddConnection { global, .. } && {
        &&& record.global == global
        &&& global ==> origin.root() && record.owner_uid is None
        &&& !global ==> record.owner_uid == Some(origin.owner(sudo_uid))
    }
}

/// Before step `k`, the addition's content was parsed, and the record holds it.
pub open spec fn holds_the_content(
    record: StoredConnection,
    replies: Seq<StoreReply>,
    outcomes: Seq<DispatchOutcome>,
    k: int,
) -> bool {
    exists|parsed: ParsedConfig| #[trigger]
        parsed_as(replies, outcomes, k, parsed) && record.fingerprint@ == parsed.fingerprint@
}

/// Before step `k`, the record was created, under an id that was allocated for it.
pub open spec fn newly_created(
    record: StoredConnection,
    replies: Seq<StoreReply>,
    outcomes: Seq<DispatchOutcome>,
    k: int,
) -> bool {
    &&& carried_out(replies, outcomes, k, StoreCall::Create { record })
    &&& exchanged(
        replies,
        outcomes,
        k,
        StoreCall::AllocateInterface,
        StoreReply::Allocated(Ok((record.id, record.interface))),
    )
}

/// An addition stays in its scope. The id that it answers with is that of a record that
/// it created there, or of one that stood there already; either holds the content that
/// was submitted. And a record that it updates stood there already, holds that content,
/// and stays where it is. `store` is what the store holds under the index lock.
pub proof fn additions_stay_in_their_scope(
    request: PrivilegedRequest,
    origin: PeerOrigin,
    sudo_uid: Option<Seq<char>>,
    replies: Seq<StoreReply>,
    outcomes: Seq<DispatchOutcome>,
    k: int,
    store: Seq<StoredConnection>,
)
    requires
        request is AddConnection,
        course(request, origin, sudo_uid, replies, outcomes),
        0 <= k < outcomes.len(),
        all_true_of(store, replies, outcomes, k),
    ensures
        outcomes[k] matches DispatchOutcome::Immediate(PrivilegedResponse::ConnectionId(id))
            ==> exists|record: StoredConnection|
            record.id == id && #[trigger] in_own_scope(record, request, origin, sudo_uid)
                && holds_the_content(record, replies, outcomes, k) && (store.contains(record)
                || newly_created(record, replies, outcomes, k)),
        called(outcomes[k]) matches Some(StoreCall::Update { record: after }) ==> in_own_scope(
            after,
            request,
            origin,
            sudo_uid,
        ) && exists|before: StoredConnection|
            store.contains(before) && #[trigger] same_content(before, after) && in_own_scope(
                before,
                request,
                origin,
                sudo_uid,
            ) && holds_the_content(before, replies, outcomes, k),
{
    lemma_addition(request, origin, sudo_uid, replies, outcomes, k);
    if k > 0 {
        let p = k - 1;
        lemma_addition(request, origin, sudo_uid, replies, outcomes, p);
        assert(went_on(outcomes[0], replies[0], outcomes[1]));
        assert(went_on(outcomes[p], replies[p], outcomes[k]));
        match outcomes[p] {
            DispatchOutcome::Ask { state: HandlerState::Add(state), call } => match state {
                AddState::FindingIdentity(_, parsed) => {
                    lemma_addition_later(arbitrary(), parsed, replies, outcomes, p);
                    if let StoreReply::Record(Ok(Some(existing))) = replies[p] {
                        assert(true_of(store, call, replies[p]));
                        assert(parsed_as(replies, outcomes, k, parsed));
                        assert(in_own_scope(existing, request, origin, sudo_uid));
                    }
                },
                AddState::Creating(id) => {
                    let record = call->Create_record;
                    let new = choose|new: NewConnection| #[trigger]
                        new_on_course(new, replies, outcomes, p) && record
                            == add::new_record(new, id, record.interface, record.created_at);
                    lemma_addition_later(arbitrary(), new.parsed, replies, outcomes, p);
                    lemma_exchanged_later(
                        replies,
                        outcomes,
                        p,
                        StoreCall::AllocateInterface,
                        StoreReply::Allocated(Ok((id, record.interface))),
                    );
                    assert(called(outcomes[p]) == Some(StoreCall::Create { record }));
                    if replies[p] matches StoreReply::Done(Ok(_)) {
                        assert(newly_created(record, replies, outcomes, k));
                    }
                    assert(parsed_as(replies, outcomes, k, new.parsed));
                    assert(in_own_scope(record, request, origin, sudo_uid));
                },
                _ => {},
            },
            DispatchOutcome::Ask { state: HandlerState::Reconcile(state), call } => match state {
                ReconcileState::Updating(id) => {
                    let after = call->Update_record;
                    let admitted_then = admitted(request, replies, outcomes, p);
                    let change = choose|change: RecordChange| #[trigger]
                        change_on_course(change, replies, outcomes, p) && changed_name_cleared(
                            change.existing,
                            replies,
                            outcomes,
                            p,
                        ) && (add::elevates(change.existing, change.start_mode) ==> admitted_then)
                            && id == change.existing.id && after == add::changed_record(
                            change,
                            after.updated_at,
                        );
                    lemma_addition_later(change.existing, arbitrary(), replies, outcomes, p);
                    lemma_found_in_scope(
                        request,
                        origin,
                        sudo_uid,
                        replies,
                        outcomes,
                        k,
                        store,
                        change.existing,
                    );
                },
                _ => {},
            },
            _ => {},
        }
    }
    if let DispatchOutcome::Ask {
        state: HandlerState::Reconcile(ReconcileState::Updating(id)),
        call,
    } = outcomes[k] {
        let after = call->Update_record;
        let admitted_now = admitted(request, replies, outcomes, k);
        let change = choose|change: RecordChange| #[trigger]
            change_on_course(change, replies, outcomes, k) && changed_name_cleared(
                change.existing,
                replies,
                outcomes,
                k,
            ) && (add::elevates(change.existing, change.start_mode) ==> admitted_now) && id
                == change.existing.id && after == add::changed_record(change, after.updated_at);
        lemma_found_in_scope(
            request,
            origin,
            sudo_uid,
            replies,
            outcomes,
            k,
            store,
            change.existing,
        );
        assert(same_content(change.existing, after));
    }
}

/// A record that an addition found with its content stands in the addition's scope.
proof fn lemma_found_in_scope(
    request: PrivilegedRequest,
    origin: PeerOrigin,
    sudo_uid: Option<Seq<char>>,
    replies: Seq<StoreReply>,
    outcomes: Seq<DispatchOutcome>,
    k: int,
    store: Seq<StoredConnection>,
    existing: StoredConnection,
)
    requires
        request is AddConnection,
        course(request, origin, sudo_uid, replies, outcomes),
        0 < k < outcomes.len(),
        all_true_of(store, replies, outcomes, k),
        found_identical(replies, outcomes, k, existing),
    ensures
        store.contains(existing),
        in_own_scope(existing, request, origin, sudo_uid),
        holds_the_content(existing, replies, outcomes, k),
{
    let own = asked(outcomes);
    assert(went_on(outcomes[0], replies[0], outcomes[1]));
    let parsed = choose|parsed: ParsedConfig| #[trigger]
        parsed_as(replies, outcomes, k, parsed) && read_by(
            replies,
            outcomes,
            k,
            StoreCall::FindByIdentity {
                fingerprint: parsed.fingerprint,
                global: own.global,
                owner_uid: own.owner_uid,
            },
            existing,
        );
    let identity = StoreCall::FindByIdentity {
        fingerprint: parsed.fingerprint,
        global: own.global,
        owner_uid: own.owner_uid,
    };
    let f = choose|f: int|
        0 <= f < k && called(#[trigger] outcomes[f]) == Some(identity) && replies[f]
            == StoreReply::Record(Ok(Some(existing)));
    assert(true_of(store, identity, replies[f]));
}

/// No content is stored twice in one scope, however often it is submitted: a record
/// that is created brings content that its scope does not hold yet. `store` is what the
/// store holds under the index lock.
pub proof fn additions_keep_contents_unique(
    request: PrivilegedRequest,
    origin: PeerOrigin,
    sudo_uid: Option<Seq<char>>,
    replies: Seq<StoreReply>,
    outcomes: Seq<DispatchOutcome>,
    k: int,
    record: StoredConnection,
    store: Seq<StoredConnection>,
)
    requires
        course(request, origin, sudo_uid, replies, outcomes),
        0 <= k < outcomes.len(),
        called(outcomes[k]) == Some(StoreCall::Create { record }),
        identities_unique(store),
        all_true_of(store, replies, outcomes, k),
    ensures
        identities_unique(store.push(record)),
{
    lemma_on_course(request, origin, sudo_uid, replies, outcomes, k);
    let own = asked(outcomes);
    if let DispatchOutcome::Ask { state: HandlerState::Add(AddState::Creating(id)), call } =
        outcomes[k] {
        let new = choose|new: NewConnection| #[trigger]
            new_on_course(new, replies, outcomes, k) && record == add::new_record(
                new,
                id,
                record.interface,
                record.created_at,
            );
        let identity = StoreCall::FindByIdentity {
            fingerprint: new.parsed.fingerprint,
            global: own.global,
            owner_uid: own.owner_uid,
        };
        let j = choose|j: int|
            0 <= j < k && called(#[trigger] outcomes[j]) == Some(identity) && replies[j]
                == StoreReply::Record(Ok(None));
        assert(true_of(store, identity, replies[j]));
    }
    let after = store.push(record);
    assert forall|i: int, j: int|
        0 <= i < after.len() && 0 <= j < after.len() && i != j implies !same_identity(
        #[trigger] after[i],
        #[trigger] after[j],
    ) by {
        if i < store.len() && j < store.len() {
            assert(after[i] == store[i] && after[j] == store[j]);
        } else if i < store.len() {
            assert(after[i] == store[i] && after[j] == record);
        } else {
            assert(after[i] == record && after[j] == store[j]);
        }
    }
}

/// As long as nobody insists, names stay unique within their scope: a record
/// created by an addition without `force` brings no name that is there already.
/// `store` is what the store holds under the index lock.
pub proof fn additions_keep_names_unique(
    request: PrivilegedRequest,
    origin: PeerOrigin,
    sudo_uid: Option<Seq<char>>,
    replies: Seq<StoreReply>,
    outcomes: Seq<DispatchOutcome>,
    k: int,
    record: StoredConnection,
    store: Seq<StoredConnection>,
)
    requires
        course(request, origin, sudo_uid, replies, outcomes),
        0 <= k < outcomes.len(),
        called(outcomes[k]) == Some(StoreCall::Create { record }),
        !asked(outcomes).force,
        names_unique(store),
        all_true_of(store, replies, outcomes, k),
    ensures
        names_unique(store.push(record)),
{
    lemma_on_course(request, origin, sudo_uid, replies, outcomes, k);
    let own = asked(outcomes);
    if let DispatchOutcome::Ask { state: HandlerState::Add(AddState::Creating(id)), call } =
        outcomes[k] {
        let new = choose|new: NewConnection| #[trigger]
            new_on_course(new, replies, outcomes, k) && record == add::new_record(
                new,
                id,
                record.interface,
                record.created_at,
            );
        if let Some(name) = own.name {
            let lookup = StoreCall::FindByName {
                name,
                global: own.global,
                owner_uid: own.owner_uid,
            };
            let j = choose|j: int|
                0 <= j < k && called(#[trigger] outcomes[j]) == Some(lookup) && replies[j]
                    == StoreReply::Record(Ok(None));
            assert(true_of(store, lookup, replies[j]));
        }
    }
    let after = store.push(record);
    assert forall|i: int, j: int|
        0 <= i < after.len() && 0 <= j < after.len() && i != j implies !same_name(
        #[trigger] after[i],
        #[trigger] after[j],
    ) by {
        if i < store.len() && j < store.len() {
            assert(after[i] == store[i] && after[j] == store[j]);
        } else if i < store.len() {
            assert(after[i] == store[i] && after[j] == record);
        } else {
            assert(after[i] == record && after[j] == store[j]);
        }
    }
}

/// As long as nobody insists, names stay unique within their scope also where an
/// addition changes a record that holds its content already: the change takes no
/// name from another record.
pub proof fn changes_keep_names_unique(
    request: PrivilegedRequest,
    origin: PeerOrigin,
    sudo_uid: Option<Seq<char>>,
    replies: Seq<StoreReply>,
    outcomes: Seq<DispatchOutcome>,
    k: int,
    after: StoredConnection,
    store: Seq<StoredConnection>,
    at: int,
)
    requires
        request is AddConnection,
        course(request, origin, sudo_uid, replies, outcomes),
        0 <= k < outcomes.len(),
        called(outcomes[k]) == Some(StoreCall::Update { record: after }),
        !asked(outcomes).force,
        names_unique(store),
        ids_unique(store),
        all_true_of(store, replies, outcomes, k),
        0 <= at < store.len(),
        store[at].id.same(after.id),
    ensures
        names_unique(store.update(at, after)),
{
    lemma_addition(request, origin, sudo_uid, replies, outcomes, k);
    let own = asked(outcomes);
    let admitted_now = admitted(request, replies, outcomes, k);
    let change = choose|change: RecordChange| #[trigger]
        change_on_course(change, replies, outcomes, k) && changed_name_cleared(
            change.existing,
            replies,
            outcomes,
            k,
        ) && (add::elevates(change.existing, change.start_mode) ==> admitted_now) && after
            == add::changed_record(change, after.updated_at);
    let existing = change.existing;
    let parsed = choose|parsed: ParsedConfig| #[trigger]
        parsed_as(replies, outcomes, k, parsed) && read_by(
            replies,
            outcomes,
            k,
            StoreCall::FindByIdentity {
                fingerprint: parsed.fingerprint,
                global: own.global,
                owner_uid: own.owner_uid,
            },
            existing,
        );
    let identity = StoreCall::FindByIdentity {
        fingerprint: parsed.fingerprint,
        global: own.global,
        owner_uid: own.owner_uid,
    };
    let f = choose|f: int|
        0 <= f < k && called(#[trigger] outcomes[f]) == Some(identity) && replies[f]
            == StoreReply::Record(Ok(Some(existing)));
    assert(true_of(store, identity, replies[f]));
    let e = choose|e: int| 0 <= e < store.len() && store[e] == existing;
    assert(e == at) by {
        assert(store[e].id.same(store[at].id));
    }
    let changed = store.update(at, after);
    if add::renames(own.name, existing.name) {
        let name = own.name->0;
        let lookup = StoreCall::FindByName {
            name,
            global: existing.global,
            owner_uid: existing.owner_uid,
        };
        assert forall|i: int| 0 <= i < store.len() && i != at implies !has_name(
            #[trigger] store[i],
            name@,
            existing.global,
            existing.owner_uid,
        ) by {
            if name_found_free(
                name,
                existing.global,
                existing.owner_uid,
                replies,
                outcomes,
                k,
            ) {
                let j = choose|j: int|
                    0 <= j < k && called(#[trigger] outcomes[j]) == Some(lookup) && replies[j]
                        == StoreReply::Record(Ok(None));
                assert(true_of(store, lookup, replies[j]));
            } else {
                let other = choose|other: StoredConnection| #[trigger]
                    read_by(replies, outcomes, k, lookup, other) && other.id.same(existing.id);
                let j = choose|j: int|
                    0 <= j < k && called(#[trigger] outcomes[j]) == Some(lookup) && replies[j]
                        == StoreReply::Record(Ok(Some(other)));
                assert(true_of(store, lookup, replies[j]));
                let o = choose|o: int| 0 <= o < store.len() && store[o] == other;
                assert(o == at) by {
                    assert(store[o].id.same(store[at].id));
                }
                assert(has_name(store[at], name@, existing.global, existing.owner_uid));
            }
        }
    }
    assert forall|i: int, j: int|
        0 <= i < changed.len() && 0 <= j < changed.len() && i != j implies !same_name(
        #[trigger] changed[i],
        #[trigger] changed[j],
    ) by {
        if i != at && j != at {
            assert(changed[i] == store[i] && changed[j] == store[j]);
        } else if i != at {
            assert(changed[i] == store[i] && changed[j] == after);
            assert(store[at] == existing);
        } else {
            assert(changed[i] == after && changed[j] == store[j]);
            assert(store[at] == existing);
        }
    }
}

// ---- the law of answers -----------------------------------------------------

/// How many replies a request still waits for at most.
spec fn patience(outcome: DispatchOutcome) -> int {
    match outcome {
        DispatchOutcome::Immediate(_) => 0,
        DispatchOutcome::Ask { state, call: _ } => state_patience(state),
        DispatchOutcome::Pending { worker, call: _ } => state_patience(worker),
    }
}

spec fn state_patience(state: HandlerState) -> int {
    match state {
        HandlerState::Add(state) => match state {
            AddState::Parsing(_) => 8,
            AddState::LockingIndex(_, _) => 7,
            AddState::FindingIdentity(_, _) => 6,
            AddState::FindingName(_, _) => 5,
            AddState::Authorizing(_) => 4,
            AddState::Allocating(_) => 3,
            AddState::ReadingClock(_, _, _) => 2,
            AddState::Creating(_) => 1,
        },
        HandlerState::Reconcile(state) => match state {
            ReconcileState::FindingName(_, _) => 5,
            ReconcileState::Authorizing(_) => 4,
            ReconcileState::Locking(_) => 3,
            ReconcileState::ReadingClock(_) => 2,
            ReconcileState::Updating(_) => 1,
        },
        HandlerState::Remove(state) => match state {
            RemoveState::LockingIndex(_) => 6,
            RemoveState::Loading(_) => 5,
            RemoveState::LockingConnection(_) => 4,
            RemoveState::CheckingActive(_) => 3,
            RemoveState::Authorizing(_) => 2,
            RemoveState::Removing => 1,
        },
        HandlerState::Connect(state) => match state {
            ConnectState::Loading(_, _) => 5,
            ConnectState::Locking(_) => 4,
            ConnectState::Resolving(_) => 3,
            ConnectState::Clearing(_, _) => 2,
            ConnectState::Connecting => 1,
        },
        HandlerState::Disconnect(state) => match state {
            DisconnectState::Loading(_, _) => 5,
            DisconnectState::Locking(_) => 4,
            DisconnectState::Marking(_) => 3,
            DisconnectState::Marked(_) => 2,
            DisconnectState::Disconnecting => 1,
        },
        HandlerState::Mode(state) => match state {
            ModeState::Locking(_) => 5,
            ModeState::Loading(_) => 4,
            ModeState::Authorizing(_, _) => 3,
            ModeState::ReadingClock(_, _) => 2,
            ModeState::Updating => 1,
        },
        HandlerState::List(state) => match state {
            ListState::Loading(_, _) => 1,
            ListState::Checking(records, connected) => records@.len() - connected@.len(),
        },
        HandlerState::Get(state) => match state {
            GetState::Loading(_, _) => 2,
            GetState::Checking(_) => 1,
        },
        HandlerState::Interface(state) => match state {
            InterfaceState::Gate(_, _, _) => 2,
            _ => 1,
        },
    }
}

/// Every request but a listing is answered after eight replies at most, whatever
/// the store and the machine reply.
pub proof fn requests_are_answered(
    request: PrivilegedRequest,
    origin: PeerOrigin,
    sudo_uid: Option<Seq<char>>,
    replies: Seq<StoreReply>,
    outcomes: Seq<DispatchOutcome>,
)
    requires
        course(request, origin, sudo_uid, replies, outcomes),
        !(request is ListConnections),
    ensures
        replies.len() <= 8,
{
    lemma_patience(request, origin, sudo_uid, replies, outcomes, outcomes.len() - 1);
}

/// With each reply, a request other than a listing comes closer to its answer.
proof fn lemma_step_patience(state: HandlerState, reply: StoreReply, outcome: DispatchOutcome)
    requires
        !(state is List),
        dispatch::stepped(state, reply, outcome),
    ensures
        0 <= patience(outcome) < state_patience(state),
        !lists(outcome),
{
    match state {
        HandlerState::Add(_) => {},
        HandlerState::Reconcile(_) => {},
        HandlerState::Remove(_) => {},
        HandlerState::Connect(_) => {},
        HandlerState::Disconnect(_) => {},
        HandlerState::Mode(_) => {},
        HandlerState::Get(_) => {},
        HandlerState::Interface(_) => {},
        _ => {},
    }
}

/// The outcome is a step of a listing.
spec fn lists(outcome: DispatchOutcome) -> bool {
    match outcome {
        DispatchOutcome::Immediate(_) => false,
        DispatchOutcome::Ask { state, call: _ } => state is List,
        DispatchOutcome::Pending { worker, call: _ } => worker is List,
    }
}

proof fn lemma_patience(
    request: PrivilegedRequest,
    origin: PeerOrigin,
    sudo_uid: Option<Seq<char>>,
    replies: Seq<StoreReply>,
    outcomes: Seq<DispatchOutcome>,
    k: int,
)
    requires
        course(request, origin, sudo_uid, replies, outcomes),
        !(request is ListConnections),
        0 <= k < outcomes.len(),
    ensures
        0 <= patience(outcomes[k]) <= 8 - k,
        !lists(outcomes[k]),
    decreases k,
{
    if k > 0 {
        let p = k - 1;
        lemma_patience(request, origin, sudo_uid, replies, outcomes, p);
        assert(went_on(outcomes[p], replies[p], outcomes[p + 1]));
        match outcomes[p] {
            DispatchOutcome::Ask { state, call: _ } => {
                lemma_step_patience(state, replies[p], outcomes[k]);
            },
            DispatchOutcome::Pending { worker, call: _ } => {
                lemma_step_patience(worker, replies[p], outcomes[k]);
            },
            _ => {},
        }
    }
}

/// A listing is answered after the records were read and each one of its scope
/// was asked about once.
pub proof fn listings_are_answered(
    scope: ConnectionScope,
    origin: PeerOrigin,
    sudo_uid: Option<Seq<char>>,
    replies: Seq<StoreReply>,
    outcomes: Seq<DispatchOutcome>,
    all: Vec<StoredConnection>,
)
    requires
        course(
            PrivilegedRequest::ListConnections { scope },
            origin,
            sudo_uid,
            replies,
            outcomes,
        ),
        replies.len() > 0,
        replies[0] == StoreReply::Records(Ok(all)),
    ensures
        replies.len() <= 1 + query::scoped(all@, scope, origin).len(),
        outcomes.last() is Immediate <==> replies.len() == 1 + query::scoped(
            all@,
            scope,
            origin,
        ).len(),
{
    lemma_listing_patience(scope, origin, sudo_uid, replies, outcomes, all, outcomes.len() - 1);
    lemma_list(scope, origin, sudo_uid, replies, outcomes, outcomes.len() - 1);
}

proof fn lemma_listing_patience(
    scope: ConnectionScope,
    origin: PeerOrigin,
    sudo_uid: Option<Seq<char>>,
    replies: Seq<StoreReply>,
    outcomes: Seq<DispatchOutcome>,
    all: Vec<StoredConnection>,
    k: int,
)
    requires
        course(
            PrivilegedRequest::ListConnections { scope },
            origin,
            sudo_uid,
            replies,
            outcomes,
        ),
        replies.len() > 0,
        replies[0] == StoreReply::Records(Ok(all)),
        0 < k < outcomes.len(),
    ensures
        patience(outcomes[k]) == 1 + query::scoped(all@, scope, origin).len() - k,
        outcomes[k] matches DispatchOutcome::Ask { state, call: _ } ==> state matches
            HandlerState::List(ListState::Checking(_, _)),
    decreases k,
{
    let p = k - 1;
    lemma_list(scope, origin, sudo_uid, replies, outcomes, p);
    lemma_list(scope, origin, sudo_uid, replies, outcomes, k);
    assert(went_on(outcomes[p], replies[p], outcomes[p + 1]));
    if p > 0 {
        lemma_listing_patience(scope, origin, sudo_uid, replies, outcomes, all, p);
    }
}

} // verus!
