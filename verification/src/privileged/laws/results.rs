//! What an answer tells the caller: that the request was carried out as asked,
//! and what was written, shown or refused on the way.

use vstd::prelude::*;

use crate::privileged::change::ModeState;
use crate::privileged::dispatch::{DispatchOutcome, HandlerState, PeerOrigin};
use crate::privileged::laws;
use crate::privileged::store::{StoreCall, StoreReply, StoredConnection};
use crate::privileged_api::{
    ConnectReason, ConnectionId, ConnectionStartMode, DisconnectReason, PrivilegedRequest,
    PrivilegedResponse,
};

verus! {

// ---- tunnels ----------------------------------------------------------------

/// A user's connect is answered as done only once the tunnel of the connection
/// was brought up, with the debugging asked for.
pub proof fn users_connect_brings_the_tunnel_up(
    id: ConnectionId,
    debug: bool,
    origin: PeerOrigin,
    sudo_uid: Option<Seq<char>>,
    replies: Seq<StoreReply>,
    outcomes: Seq<DispatchOutcome>,
    k: int,
    response: PrivilegedResponse,
)
    requires
        laws::course(
            PrivilegedRequest::ConnectConnection { id, debug, reason: ConnectReason::User },
            origin,
            sudo_uid,
            replies,
            outcomes,
        ),
        0 <= k < outcomes.len(),
        outcomes[k] == DispatchOutcome::Immediate(response),
        response !is Error,
    ensures
        response is Unit,
        laws::carried_out(replies, outcomes, k, StoreCall::Connect { id, debug }),
{
    let reason = ConnectReason::User;
    laws::lemma_connect(id, debug, reason, origin, sudo_uid, replies, outcomes, k);
    if k > 0 {
        let p = k - 1;
        laws::lemma_connect(id, debug, reason, origin, sudo_uid, replies, outcomes, p);
        assert(laws::went_on(outcomes[p], replies[p], outcomes[p + 1]));
    }
}

/// An automatic bring-up is answered as done only once the tunnel was brought up,
/// or right after the record was read under its lock and said that the user took
/// the connection down.
pub proof fn reconciliation_brings_up_or_backs_off(
    id: ConnectionId,
    debug: bool,
    origin: PeerOrigin,
    sudo_uid: Option<Seq<char>>,
    replies: Seq<StoreReply>,
    outcomes: Seq<DispatchOutcome>,
    k: int,
    response: PrivilegedResponse,
)
    requires
        laws::course(
            PrivilegedRequest::ConnectConnection {
                id,
                debug,
                reason: ConnectReason::Reconciliation,
            },
            origin,
            sudo_uid,
            replies,
            outcomes,
        ),
        0 <= k < outcomes.len(),
        outcomes[k] == DispatchOutcome::Immediate(response),
        response !is Error,
    ensures
        response is Unit,
        laws::carried_out(replies, outcomes, k, StoreCall::Connect { id, debug }) || {
            &&& k > 1
            &&& laws::just_locked(id, replies, outcomes, k - 1)
            &&& laws::called(outcomes[k - 1]) == Some(StoreCall::Load { id })
            &&& replies[k - 1] matches StoreReply::Record(Ok(Some(record)))
                && record.user_disconnected
        },
{
    let reason = ConnectReason::Reconciliation;
    laws::lemma_connect(id, debug, reason, origin, sudo_uid, replies, outcomes, k);
    if k > 0 {
        let p = k - 1;
        laws::lemma_connect(id, debug, reason, origin, sudo_uid, replies, outcomes, p);
        assert(laws::went_on(outcomes[p], replies[p], outcomes[p + 1]));
    }
}

/// A take-down is answered as done only once the tunnel of the connection was
/// taken down.
pub proof fn disconnect_takes_the_tunnel_down(
    id: ConnectionId,
    reason: DisconnectReason,
    origin: PeerOrigin,
    sudo_uid: Option<Seq<char>>,
    replies: Seq<StoreReply>,
    outcomes: Seq<DispatchOutcome>,
    k: int,
    response: PrivilegedResponse,
)
    requires
        laws::course(
            PrivilegedRequest::DisconnectConnection { id, reason },
            origin,
            sudo_uid,
            replies,
            outcomes,
        ),
        0 <= k < outcomes.len(),
        outcomes[k] == DispatchOutcome::Immediate(response),
        response !is Error,
    ensures
        response is Unit,
        laws::carried_out(replies, outcomes, k, StoreCall::Disconnect { id }),
{
    laws::lemma_disconnect(id, reason, origin, sudo_uid, replies, outcomes, k);
    if k > 0 {
        let p = k - 1;
        laws::lemma_disconnect(id, reason, origin, sudo_uid, replies, outcomes, p);
        assert(laws::went_on(outcomes[p], replies[p], outcomes[p + 1]));
    }
}

/// What a connect or a disconnect writes is the record that it read, with nothing
/// changed but the note that the user took the connection down: a user's connect
/// takes the note away, and a user's disconnect makes it.
pub proof fn tunnels_change_only_the_users_note(
    request: PrivilegedRequest,
    id: ConnectionId,
    origin: PeerOrigin,
    sudo_uid: Option<Seq<char>>,
    replies: Seq<StoreReply>,
    outcomes: Seq<DispatchOutcome>,
    k: int,
    after: StoredConnection,
)
    requires
        laws::course(request, origin, sudo_uid, replies, outcomes),
        0 <= k < outcomes.len(),
        laws::called(outcomes[k]) == Some(StoreCall::Update { record: after }),
        match request {
            PrivilegedRequest::ConnectConnection { id: asked, .. } => asked == id,
            PrivilegedRequest::DisconnectConnection { id: asked, .. } => asked == id,
            _ => false,
        },
    ensures
        exists|before: StoredConnection| #[trigger]
            laws::read_by(replies, outcomes, k, StoreCall::Load { id }, before)
                && before.user_disconnected != after.user_disconnected && after == (
            StoredConnection { user_disconnected: after.user_disconnected, ..before }),
        match request {
            PrivilegedRequest::ConnectConnection { reason, .. } => reason == ConnectReason::User
                && !after.user_disconnected,
            PrivilegedRequest::DisconnectConnection { reason, .. } => reason
                == DisconnectReason::User && after.user_disconnected,
            _ => false,
        },
{
    laws::lemma_on_course(request, origin, sudo_uid, replies, outcomes, k);
}

// ---- removals and start modes -----------------------------------------------

/// A removal is answered as done only once the record was removed.
pub proof fn removal_removes_the_record(
    id: ConnectionId,
    auth: Option<Vec<u8>>,
    origin: PeerOrigin,
    sudo_uid: Option<Seq<char>>,
    replies: Seq<StoreReply>,
    outcomes: Seq<DispatchOutcome>,
    k: int,
    response: PrivilegedResponse,
)
    requires
        laws::course(
            PrivilegedRequest::RemoveConnection { id, auth_external_form: auth },
            origin,
            sudo_uid,
            replies,
            outcomes,
        ),
        0 <= k < outcomes.len(),
        outcomes[k] == DispatchOutcome::Immediate(response),
        response !is Error,
    ensures
        response is Unit,
        laws::carried_out(replies, outcomes, k, StoreCall::Remove { id }),
{
    laws::lemma_removal(id, auth, origin, sudo_uid, replies, outcomes, k);
    if k > 0 {
        let p = k - 1;
        laws::lemma_removal(id, auth, origin, sudo_uid, replies, outcomes, p);
        assert(laws::went_on(outcomes[p], replies[p], outcomes[p + 1]));
    }
}

/// What the setting of a start mode writes is the record of the connection with
/// the mode asked for, which it did not have yet, and with the time of the
/// change. A mode that lands on automatic forgets that the user took the
/// connection down; nothing else changes. A global connection is made to start by
/// itself only for verified credentials.
pub proof fn mode_written_is_the_mode_asked_for(
    id: ConnectionId,
    start_mode: ConnectionStartMode,
    auth: Option<Vec<u8>>,
    origin: PeerOrigin,
    sudo_uid: Option<Seq<char>>,
    replies: Seq<StoreReply>,
    outcomes: Seq<DispatchOutcome>,
    k: int,
    after: StoredConnection,
)
    requires
        laws::course(
            PrivilegedRequest::SetConnectionMode { id, start_mode, auth_external_form: auth },
            origin,
            sudo_uid,
            replies,
            outcomes,
        ),
        0 <= k < outcomes.len(),
        laws::called(outcomes[k]) == Some(StoreCall::Update { record: after }),
    ensures
        after.start_mode == start_mode,
        start_mode == ConnectionStartMode::Automatic ==> !after.user_disconnected,
        laws::exchanged(
            replies,
            outcomes,
            k,
            StoreCall::Now,
            StoreReply::Time(after.updated_at),
        ),
        exists|before: StoredConnection| #[trigger]
            laws::read_by(replies, outcomes, k, StoreCall::Load { id }, before) && {
                &&& before.start_mode != start_mode
                &&& laws::same_content(before, after)
                &&& after.name == before.name
                &&& start_mode == ConnectionStartMode::Manual ==> after.user_disconnected
                    == before.user_disconnected
                &&& before.global && before.start_mode == ConnectionStartMode::Manual ==> (
                auth matches Some(external_form) && laws::carried_out(
                    replies,
                    outcomes,
                    k,
                    StoreCall::VerifyAdmin { external_form },
                ))
            },
{
    laws::lemma_mode(id, start_mode, auth, origin, sudo_uid, replies, outcomes, k);
    let p = k - 1;
    laws::lemma_mode(id, start_mode, auth, origin, sudo_uid, replies, outcomes, p);
    assert(laws::went_on(outcomes[p], replies[p], outcomes[p + 1]));
    laws::lemma_exchanged_now(replies, outcomes, p, laws::called(outcomes[p])->0);
    let request = PrivilegedRequest::SetConnectionMode { id, start_mode, auth_external_form: auth };
    let admitted_now = laws::admitted(request, replies, outcomes, k);
    let before = choose|before: StoredConnection| #[trigger]
        laws::own_record(origin, id, replies, outcomes, k, before) && before.start_mode
            != start_mode && (crate::privileged::add::elevates(before, start_mode) ==> admitted_now)
            && after == crate::privileged::change::mode_set(
            before,
            start_mode,
            after.updated_at,
        );
    assert(laws::read_by(replies, outcomes, k, StoreCall::Load { id }, before));
}

/// The setting of a start mode is answered as done only where the connection has
/// the mode: a record of it with that mode was written, or was read.
pub proof fn mode_answered_is_on_record(
    id: ConnectionId,
    start_mode: ConnectionStartMode,
    auth: Option<Vec<u8>>,
    origin: PeerOrigin,
    sudo_uid: Option<Seq<char>>,
    replies: Seq<StoreReply>,
    outcomes: Seq<DispatchOutcome>,
    k: int,
    response: PrivilegedResponse,
)
    requires
        laws::course(
            PrivilegedRequest::SetConnectionMode { id, start_mode, auth_external_form: auth },
            origin,
            sudo_uid,
            replies,
            outcomes,
        ),
        0 <= k < outcomes.len(),
        outcomes[k] == DispatchOutcome::Immediate(response),
        response !is Error,
    ensures
        response is Unit,
        (exists|record: StoredConnection|
            record.start_mode == start_mode && #[trigger] laws::carried_out(
                replies,
                outcomes,
                k,
                StoreCall::Update { record },
            )) || (exists|record: StoredConnection|
            record.start_mode == start_mode && #[trigger] laws::read_by(
                replies,
                outcomes,
                k,
                StoreCall::Load { id },
                record,
            )),
{
    laws::lemma_mode(id, start_mode, auth, origin, sudo_uid, replies, outcomes, k);
    let p = k - 1;
    if k > 0 {
        laws::lemma_mode(id, start_mode, auth, origin, sudo_uid, replies, outcomes, p);
        assert(laws::went_on(outcomes[p], replies[p], outcomes[p + 1]));
        laws::lemma_exchanged_now(replies, outcomes, p, laws::called(outcomes[p])->0);
        match outcomes[p] {
            DispatchOutcome::Ask { state: HandlerState::Mode(state), call } => match state {
                ModeState::Loading(_) => {
                    if let StoreReply::Record(Ok(Some(record))) = replies[p] {
                        assert(laws::read_by(
                            replies,
                            outcomes,
                            k,
                            StoreCall::Load { id },
                            record,
                        ));
                    }
                },
                ModeState::Authorizing(record, _) => {
                    laws::lemma_own_record_later(origin, id, replies, outcomes, p, record);
                    assert(laws::read_by(replies, outcomes, k, StoreCall::Load { id }, record));
                },
                ModeState::Updating => {
                    let record = call->Update_record;
                    assert(laws::carried_out(
                        replies,
                        outcomes,
                        k,
                        StoreCall::Update { record },
                    ));
                },
                _ => {},
            },
            _ => {},
        }
    }
}

} // verus!
