//! What is done under which lock, and what is left to a worker.

use vstd::prelude::*;

use crate::privileged::add::ReconcileState;
use crate::privileged::change::{ModeState, RemoveState};
use crate::privileged::dispatch::{DispatchOutcome, HandlerState, PeerOrigin};
use crate::privileged::laws;
use crate::privileged::store::{StoreCall, StoreReply};
use crate::privileged::tunnel::{ConnectState, DisconnectState};
use crate::privileged_api::{ConnectionId, PrivilegedRequest};

verus! {

/// Before step `k`, the lock on the index was taken.
pub open spec fn index_locked(
    replies: Seq<StoreReply>,
    outcomes: Seq<DispatchOutcome>,
    k: int,
) -> bool {
    laws::carried_out(replies, outcomes, k, StoreCall::LockIndex)
}

/// Before step `k`, the lock on the connection was taken, at once or after a wait.
pub open spec fn connection_locked(
    id: ConnectionId,
    replies: Seq<StoreReply>,
    outcomes: Seq<DispatchOutcome>,
    k: int,
) -> bool {
    ||| laws::carried_out(replies, outcomes, k, StoreCall::LockConnection { id })
    ||| laws::carried_out(replies, outcomes, k, StoreCall::LockConnectionPatient { id })
}

proof fn lemma_carried_out(replies: Seq<StoreReply>, outcomes: Seq<DispatchOutcome>, k: int)
    requires
        0 <= k < replies.len(),
    ensures
        forall|call: StoreCall|
            laws::carried_out(replies, outcomes, k, call) ==> #[trigger] laws::carried_out(
                replies,
                outcomes,
                k + 1,
                call,
            ),
        forall|call: StoreCall|
            laws::called(outcomes[k]) == Some(call) && (replies[k] matches StoreReply::Done(Ok(_)))
                ==> #[trigger] laws::carried_out(replies, outcomes, k + 1, call),
{
    assert forall|call: StoreCall| laws::carried_out(replies, outcomes, k, call) implies #[trigger]
        laws::carried_out(replies, outcomes, k + 1, call) by {
        let j = choose|j: int|
            0 <= j < k && laws::called(#[trigger] outcomes[j]) == Some(call) && replies[j] matches
                StoreReply::Done(Ok(_));
        assert(laws::called(outcomes[j]) == Some(call));
    }
    assert forall|call: StoreCall|
        laws::called(outcomes[k]) == Some(call) && (replies[k] matches StoreReply::Done(
            Ok(_),
        )) implies #[trigger] laws::carried_out(replies, outcomes, k + 1, call) by {
        assert(laws::called(outcomes[k]) == Some(call));
    }
}

/// The locks that a request holds at step `k`, given what it is waiting for.
spec fn locks_held(
    id: ConnectionId,
    replies: Seq<StoreReply>,
    outcomes: Seq<DispatchOutcome>,
    k: int,
) -> bool {
    match outcomes[k] {
        DispatchOutcome::Ask { state, call } => match state {
            HandlerState::Add(state) => state is Parsing || state is LockingIndex || index_locked(
                replies,
                outcomes,
                k,
            ),
            HandlerState::Reconcile(state) => index_locked(replies, outcomes, k) && (match state {
                ReconcileState::ReadingClock(change) => connection_locked(
                    change.existing.id,
                    replies,
                    outcomes,
                    k,
                ),
                ReconcileState::Updating(_) => call matches StoreCall::Update { record }
                    && connection_locked(record.id, replies, outcomes, k),
                _ => true,
            }),
            HandlerState::Remove(state) => match state {
                RemoveState::LockingIndex(_) => true,
                RemoveState::Loading(_) => index_locked(replies, outcomes, k),
                RemoveState::LockingConnection(_) => index_locked(replies, outcomes, k),
                _ => index_locked(replies, outcomes, k) && connection_locked(
                    id,
                    replies,
                    outcomes,
                    k,
                ),
            },
            HandlerState::Connect(state) => match state {
                ConnectState::Loading(_, _) => true,
                _ => connection_locked(id, replies, outcomes, k),
            },
            HandlerState::Disconnect(state) => match state {
                DisconnectState::Loading(_, _) => true,
                _ => connection_locked(id, replies, outcomes, k),
            },
            HandlerState::Mode(state) => match state {
                ModeState::Locking(_) => true,
                _ => connection_locked(id, replies, outcomes, k),
            },
            _ => true,
        },
        _ => true,
    }
}

proof fn lemma_locks(
    request: PrivilegedRequest,
    origin: PeerOrigin,
    sudo_uid: Option<Seq<char>>,
    replies: Seq<StoreReply>,
    outcomes: Seq<DispatchOutcome>,
    k: int,
    id: ConnectionId,
)
    requires
        laws::course(request, origin, sudo_uid, replies, outcomes),
        0 <= k < outcomes.len(),
        laws::connection_asked(request) is Some ==> laws::connection_asked(request) == Some(id),
    ensures
        locks_held(id, replies, outcomes, k),
    decreases k,
{
    if k > 0 {
        let p = k - 1;
        lemma_locks(request, origin, sudo_uid, replies, outcomes, p, id);
        laws::lemma_on_course(request, origin, sudo_uid, replies, outcomes, p);
        assert(laws::went_on(outcomes[p], replies[p], outcomes[p + 1]));
        lemma_carried_out(replies, outcomes, p);
    }
}

/// Changes are made under their locks. A record is created only under the lock on the
/// index, and removed only under that and its own. A connection is brought up or taken
/// down only under its own lock, and so is its record written anew: that of the
/// connection that the request is about, or, for an addition, the one that it writes.
pub proof fn changes_are_made_under_their_locks(
    request: PrivilegedRequest,
    origin: PeerOrigin,
    sudo_uid: Option<Seq<char>>,
    replies: Seq<StoreReply>,
    outcomes: Seq<DispatchOutcome>,
    k: int,
    call: StoreCall,
)
    requires
        laws::course(request, origin, sudo_uid, replies, outcomes),
        0 <= k < outcomes.len(),
        laws::called(outcomes[k]) == Some(call),
    ensures
        match call {
            StoreCall::Create { record: _ } => index_locked(replies, outcomes, k),
            StoreCall::Remove { id } => index_locked(replies, outcomes, k) && connection_locked(
                id,
                replies,
                outcomes,
                k,
            ),
            StoreCall::Connect { id, debug: _ } => connection_locked(id, replies, outcomes, k),
            StoreCall::Disconnect { id } => connection_locked(id, replies, outcomes, k),
            StoreCall::Update { record } => match laws::connection_asked(request) {
                Some(id) => connection_locked(id, replies, outcomes, k),
                None => index_locked(replies, outcomes, k) && connection_locked(
                    record.id,
                    replies,
                    outcomes,
                    k,
                ),
            },
            StoreCall::FindByIdentity { .. } => index_locked(replies, outcomes, k),
            StoreCall::FindByName { .. } => index_locked(replies, outcomes, k),
            _ => true,
        },
{
    let id = match laws::connection_asked(request) {
        Some(id) => id,
        None => arbitrary(),
    };
    lemma_locks(request, origin, sudo_uid, replies, outcomes, k, id);
    laws::lemma_on_course(request, origin, sudo_uid, replies, outcomes, k);
}

/// A request that has to wait for a lock is left to a worker from there on, so that it
/// keeps nobody else waiting; and no other is.
pub proof fn waiting_is_left_to_a_worker(
    request: PrivilegedRequest,
    origin: PeerOrigin,
    sudo_uid: Option<Seq<char>>,
    replies: Seq<StoreReply>,
    outcomes: Seq<DispatchOutcome>,
    k: int,
)
    requires
        laws::course(request, origin, sudo_uid, replies, outcomes),
        0 <= k < outcomes.len(),
    ensures
        outcomes[k] is Pending <==> (laws::called(outcomes[k]) matches Some(call)
            && call is LockConnectionPatient),
{
    laws::lemma_on_course(request, origin, sudo_uid, replies, outcomes, k);
}

} // verus!
