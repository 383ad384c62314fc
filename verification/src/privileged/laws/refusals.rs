//! Why a request is refused or fails, and that nothing else makes it so.

use vstd::prelude::*;

use crate::error::AppError;
use crate::privileged::add::ReconcileState;
use crate::privileged::dispatch::{DispatchOutcome, HandlerState, PeerOrigin};
use crate::privileged::laws;
use crate::privileged::store::{StoreCall, StoreReply, StoredConnection};
use crate::privileged_api::{
    AdminCause, BusyCause, ConnectionId, ConnectionScope, ConnectionStartMode, Denial, ErrorReply,
    PrivilegedRequest, PrivilegedResponse,
};

verus! {

/// The error that a reply tells of.
pub open spec fn failure(reply: StoreReply) -> Option<AppError> {
    match reply {
        StoreReply::Done(Err(error)) => Some(error),
        StoreReply::Parsed(Err(error)) => Some(error),
        StoreReply::Record(Err(error)) => Some(error),
        StoreReply::Records(Err(error)) => Some(error),
        StoreReply::Active(Err(error)) => Some(error),
        StoreReply::Allocated(Err(error)) => Some(error),
        StoreReply::Text(Err(error)) => Some(error),
        StoreReply::Overview(Err(error)) => Some(error),
        _ => None,
    }
}

/// The call takes a lock.
pub open spec fn locks(call: StoreCall) -> bool {
    call is LockIndex || call is LockConnection || call is LockConnectionPatient
}

/// The operation failed only because it would have had to wait.
pub open spec fn would_wait(error: AppError) -> bool {
    error matches AppError::Io { would_block, message: _ } && would_block
}

/// The caller came over the socket, and not as root.
pub open spec fn ordinary(origin: PeerOrigin) -> bool {
    origin matches PeerOrigin::Socket(uid) && uid != 0
}

/// The connection is none of the caller's business: they are an ordinary user,
/// and it is global or somebody else's.
pub open spec fn barred(origin: PeerOrigin, record: StoredConnection) -> bool {
    origin matches PeerOrigin::Socket(uid) && uid != 0 && (record.global || record.owner_uid
        != Some(uid))
}

/// A failure ends the request with an answer that tells of it. Credentials that
/// do not verify are a denial, a lock that is held makes the connection busy, and
/// everything else is passed on as it is. Only a question whether a tunnel is up,
/// asked to show connections, may fail without harm.
pub proof fn failures_are_told(
    request: PrivilegedRequest,
    origin: PeerOrigin,
    sudo_uid: Option<Seq<char>>,
    replies: Seq<StoreReply>,
    outcomes: Seq<DispatchOutcome>,
    k: int,
    call: StoreCall,
    error: AppError,
)
    requires
        laws::course(request, origin, sudo_uid, replies, outcomes),
        0 <= k < replies.len(),
        laws::called(outcomes[k]) == Some(call),
        failure(replies[k]) == Some(error),
        call is IsActive ==> request is RemoveConnection,
    ensures
        outcomes[k + 1] == DispatchOutcome::Immediate(
            PrivilegedResponse::Error(
                if call is VerifyAdmin {
                    match error {
                        AppError::Auth(message) => ErrorReply::Denied(Denial::Refused(message)),
                        _ => ErrorReply::Denied(Denial::Failed(error)),
                    }
                } else if locks(call) && would_wait(error) {
                    ErrorReply::Busy(BusyCause::InProgress)
                } else if call is WgShow || call is NetworkOverview {
                    ErrorReply::Query(error)
                } else {
                    match error {
                        AppError::Auth(message) => ErrorReply::Denied(Denial::Refused(message)),
                        AppError::WireGuard(message) => ErrorReply::WireGuard(message),
                        _ => ErrorReply::Other(error),
                    }
                },
            ),
        ),
{
    laws::lemma_on_course(request, origin, sudo_uid, replies, outcomes, k);
    assert(laws::went_on(outcomes[k], replies[k], outcomes[k + 1]));
}

/// Before step `k`, a global record was read that starts only on demand, and the
/// request is to make it start by itself.
pub open spec fn read_to_elevate(
    request: PrivilegedRequest,
    replies: Seq<StoreReply>,
    outcomes: Seq<DispatchOutcome>,
    k: int,
) -> bool {
    &&& match request {
        PrivilegedRequest::AddConnection { start_mode, .. } => start_mode
            == ConnectionStartMode::Automatic,
        PrivilegedRequest::SetConnectionMode { start_mode, .. } => start_mode
            == ConnectionStartMode::Automatic,
        _ => false,
    }
    &&& exists|j: int|
        0 <= j < k && (#[trigger] replies[j] matches StoreReply::Record(Ok(Some(record)))
            && record.global && record.start_mode == ConnectionStartMode::Manual)
}

/// What a request was refused for at step `k`, or failed from, is so.
pub open spec fn has_cause(
    error: ErrorReply,
    request: PrivilegedRequest,
    origin: PeerOrigin,
    replies: Seq<StoreReply>,
    outcomes: Seq<DispatchOutcome>,
    k: int,
) -> bool {
    let call = laws::called(outcomes[k - 1])->0;
    let reply = replies[k - 1];
    match error {
        ErrorReply::Denied(denial) => match denial {
            Denial::GlobalAddNeedsRoot => {
                &&& request matches PrivilegedRequest::AddConnection { global, .. } && global
                &&& ordinary(origin)
                &&& k == 0
            },
            Denial::ListAllNeedsRoot => {
                &&& request == PrivilegedRequest::ListConnections { scope: ConnectionScope::All }
                &&& ordinary(origin)
                &&& k == 0
            },
            Denial::NotOwner => {
                &&& k > 0
                &&& reply matches StoreReply::Record(Ok(Some(record))) && barred(origin, record)
                &&& (laws::connection_asked(request) matches Some(id) && call == (
                StoreCall::Load { id })) || (laws::interface_asked(request) matches Some(
                    interface,
                ) && call == (StoreCall::FindByInterface { interface }))
            },
            Denial::Refused(message) => k > 0 && failure(reply) == Some(AppError::Auth(message)),
            Denial::Failed(cause) => k > 0 && call is VerifyAdmin && failure(reply) == Some(cause),
        },
        ErrorReply::AuthRequired(cause) => {
            &&& k > 0
            &&& laws::presented(request) is None
            &&& match cause {
                AdminCause::StoreConfiguration => {
                    &&& request matches PrivilegedRequest::AddConnection { name, force, .. } && if (
                    name is Some && !force) {
                        call is FindByName
                    } else {
                        call is FindByIdentity
                    }
                    &&& reply == StoreReply::Record(Ok(None))
                },
                AdminCause::AutomaticStartup => read_to_elevate(request, replies, outcomes, k),
                AdminCause::RemoveConfiguration => {
                    &&& request is RemoveConnection
                    &&& call is IsActive
                    &&& reply == StoreReply::Active(Ok(false))
                },
            }
        },
        ErrorReply::NotFound => {
            &&& k > 0
            &&& laws::connection_asked(request) matches Some(id) && call == (StoreCall::Load { id })
            &&& reply == StoreReply::Record(Ok(None))
        },
        ErrorReply::Busy(BusyCause::Active) => {
            &&& k > 0
            &&& request matches PrivilegedRequest::RemoveConnection { id, .. } && call == (
            StoreCall::IsActive { id })
            &&& reply == StoreReply::Active(Ok(true))
        },
        ErrorReply::Busy(BusyCause::InProgress) => {
            &&& k > 0
            &&& locks(call)
            &&& failure(reply) matches Some(error) && would_wait(error)
        },
        ErrorReply::NameInUse { name, existing } => {
            &&& k > 0
            &&& request matches PrivilegedRequest::AddConnection { name: asked, force, .. }
                && !force && asked == Some(name)
            &&& call matches StoreCall::FindByName { name: looked_for, .. } && looked_for == name
            &&& reply matches StoreReply::Record(Ok(Some(holder))) && holder.id == existing
        },
        ErrorReply::WireGuard(message) => k > 0 && failure(reply) == Some(
            AppError::WireGuard(message),
        ),
        ErrorReply::Other(cause) => k > 0 && failure(reply) == Some(cause),
        ErrorReply::Query(cause) => {
            &&& k > 0
            &&& laws::interface_asked(request) is Some
            &&& failure(reply) == Some(cause)
        },
        ErrorReply::ShutdownDisabled => false,
    }
}

/// A request is refused or fails only for a cause that is there: a caller who may
/// not, credentials that are needed and missing or wrong, a connection that is
/// not there, is up or is being worked on, a name that is taken, or a failure that
/// was met right then.
#[verifier::rlimit(50)]
pub proof fn refusals_have_causes(
    request: PrivilegedRequest,
    origin: PeerOrigin,
    sudo_uid: Option<Seq<char>>,
    replies: Seq<StoreReply>,
    outcomes: Seq<DispatchOutcome>,
    k: int,
    error: ErrorReply,
)
    requires
        laws::course(request, origin, sudo_uid, replies, outcomes),
        0 <= k < outcomes.len(),
        outcomes[k] == DispatchOutcome::Immediate(PrivilegedResponse::Error(error)),
    ensures
        has_cause(error, request, origin, replies, outcomes, k),
{
    if k > 0 {
        let p = k - 1;
        laws::lemma_on_course(request, origin, sudo_uid, replies, outcomes, p);
        assert(laws::went_on(outcomes[p], replies[p], outcomes[p + 1]));
        assert(laws::went_on(outcomes[0], replies[0], outcomes[1]));
        if error == ErrorReply::AuthRequired(AdminCause::AutomaticStartup) {
            lemma_elevation_was_read(request, origin, sudo_uid, replies, outcomes, k);
        } else {
            match request {
                PrivilegedRequest::AddConnection { .. } => {},
                PrivilegedRequest::RemoveConnection { .. } => {},
                PrivilegedRequest::SetConnectionMode { .. } => {},
                _ => {},
            }
        }
    }
}

proof fn lemma_elevation_was_read(
    request: PrivilegedRequest,
    origin: PeerOrigin,
    sudo_uid: Option<Seq<char>>,
    replies: Seq<StoreReply>,
    outcomes: Seq<DispatchOutcome>,
    k: int,
)
    requires
        laws::course(request, origin, sudo_uid, replies, outcomes),
        0 < k < outcomes.len(),
        outcomes[k] == DispatchOutcome::Immediate(
            PrivilegedResponse::Error(ErrorReply::AuthRequired(AdminCause::AutomaticStartup)),
        ),
    ensures
        read_to_elevate(request, replies, outcomes, k),
{
    let p = k - 1;
    laws::lemma_on_course(request, origin, sudo_uid, replies, outcomes, p);
    assert(laws::went_on(outcomes[p], replies[p], outcomes[p + 1]));
    assert(laws::went_on(outcomes[0], replies[0], outcomes[1]));
    let j = match outcomes[p] {
        DispatchOutcome::Ask {
            state: HandlerState::Reconcile(ReconcileState::FindingName(change, _)),
            ..
        } => {
            lemma_found_is_read(replies, outcomes, p, change.existing);
            choose|j: int|
                0 <= j < p && #[trigger] replies[j] == StoreReply::Record(
                    Ok(Some(change.existing)),
                )
        },
        _ => p,
    };
    assert(replies[j] matches StoreReply::Record(Ok(Some(record))) && record.global
        && record.start_mode == ConnectionStartMode::Manual);
}

proof fn lemma_found_is_read(
    replies: Seq<StoreReply>,
    outcomes: Seq<DispatchOutcome>,
    k: int,
    existing: StoredConnection,
)
    requires
        laws::found_identical(replies, outcomes, k, existing),
    ensures
        exists|j: int|
            0 <= j < k && #[trigger] replies[j] == StoreReply::Record(Ok(Some(existing))),
{
    let parsed = choose|parsed: crate::privileged::store::ParsedConfig| #[trigger]
        laws::parsed_as(replies, outcomes, k, parsed) && laws::read_by(
            replies,
            outcomes,
            k,
            StoreCall::FindByIdentity {
                fingerprint: parsed.fingerprint,
                global: laws::asked(outcomes).global,
                owner_uid: laws::asked(outcomes).owner_uid,
            },
            existing,
        );
    let call = StoreCall::FindByIdentity {
        fingerprint: parsed.fingerprint,
        global: laws::asked(outcomes).global,
        owner_uid: laws::asked(outcomes).owner_uid,
    };
    let reply = StoreReply::Record(Ok(Some(existing)));
    let j = choose|j: int|
        0 <= j < k && laws::called(#[trigger] outcomes[j]) == Some(call) && replies[j] == reply;
    assert(replies[j] == reply);
}

/// A request about a connection does nothing to it and shows nothing of it before
/// its record was read, and the caller is not barred from it.
pub proof fn the_barred_reach_nothing(
    request: PrivilegedRequest,
    origin: PeerOrigin,
    sudo_uid: Option<Seq<char>>,
    replies: Seq<StoreReply>,
    outcomes: Seq<DispatchOutcome>,
    k: int,
    id: ConnectionId,
)
    requires
        laws::course(request, origin, sudo_uid, replies, outcomes),
        0 <= k < outcomes.len(),
        laws::connection_asked(request) == Some(id),
        laws::touches(outcomes[k]),
    ensures
        exists|record: StoredConnection| #[trigger]
            laws::read_by(replies, outcomes, k, StoreCall::Load { id }, record) && !barred(
                origin,
                record,
            ),
{
    laws::only_the_owner_or_root(request, origin, sudo_uid, replies, outcomes, k, id);
    let record = choose|record: StoredConnection| #[trigger]
        laws::read_by(replies, outcomes, k, StoreCall::Load { id }, record)
            && crate::privileged::dispatch::may_access(record, origin);
    assert(laws::read_by(replies, outcomes, k, StoreCall::Load { id }, record));
}

/// An interface of a connection that the caller is barred from is neither asked
/// about nor told of: the caller is refused at once.
pub proof fn the_barred_learn_nothing(
    request: PrivilegedRequest,
    interface: String,
    origin: PeerOrigin,
    sudo_uid: Option<Seq<char>>,
    replies: Seq<StoreReply>,
    outcomes: Seq<DispatchOutcome>,
    record: StoredConnection,
)
    requires
        laws::course(request, origin, sudo_uid, replies, outcomes),
        laws::interface_asked(request) == Some(interface),
        replies.len() > 0,
        replies[0] == StoreReply::Record(Ok(Some(record))),
    ensures
        laws::called(outcomes[0]) == Some(StoreCall::FindByInterface { interface }),
        barred(origin, record) <==> outcomes[1] == DispatchOutcome::Immediate(
            PrivilegedResponse::Error(ErrorReply::Denied(Denial::NotOwner)),
        ),
{
    assert(laws::went_on(outcomes[0], replies[0], outcomes[1]));
}

} // verus!
