//! What the leases on the daemon do: they keep it alive for those who hold them.

use vstd::prelude::*;

use crate::privileged::control;
use crate::privileged::control::ControlState;
use crate::privileged::dispatch;
use crate::privileged::dispatch::DispatchOutcome;
use crate::privileged_api::{ErrorReply, PrivilegedRequest, PrivilegedResponse};

verus! {

/// The token stands in the list.
pub open spec fn listed(list: Seq<String>, token: Seq<char>) -> bool {
    exists|i: int| 0 <= i < list.len() && #[trigger] list[i]@ == token
}

proof fn lemma_listed(list: Seq<String>, token: Seq<char>)
    ensures
        control::tokens(list).contains(token) == listed(list, token),
{
}

/// Who takes a lease holds it, even where the same one was given up for lost; of the
/// others, those given up for lost are gone, and the rest are held on to.
pub proof fn lease_taken_is_held(
    token: String,
    before: ControlState,
    after: ControlState,
    stale: Seq<String>,
    outcome: DispatchOutcome,
    other: Seq<char>,
)
    requires
        dispatch::controlled(
            PrivilegedRequest::LeaseAcquire { token },
            before,
            after,
            stale,
            outcome,
        ),
    ensures
        listed(after.leases@, token@),
        other != token@ ==> (listed(after.leases@, other) <==> listed(before.leases@, other)
            && !listed(stale, other)),
        after.allow_shutdown == before.allow_shutdown,
        after.shutdown_requested == before.shutdown_requested,
        outcome == DispatchOutcome::Immediate(PrivilegedResponse::Unit),
{
    lemma_listed(after.leases@, token@);
    lemma_listed(after.leases@, other);
    lemma_listed(before.leases@, other);
    lemma_listed(stale, other);
}

/// Who gives a lease back holds it no longer; of the others, those given up for lost
/// are gone, and the rest are held on to.
pub proof fn lease_given_back_is_gone(
    token: String,
    before: ControlState,
    after: ControlState,
    stale: Seq<String>,
    outcome: DispatchOutcome,
    other: Seq<char>,
)
    requires
        dispatch::controlled(
            PrivilegedRequest::LeaseRelease { token },
            before,
            after,
            stale,
            outcome,
        ),
    ensures
        !listed(after.leases@, token@),
        other != token@ ==> (listed(after.leases@, other) <==> listed(before.leases@, other)
            && !listed(stale, other)),
        after.allow_shutdown == before.allow_shutdown,
        after.shutdown_requested == before.shutdown_requested,
        outcome == DispatchOutcome::Immediate(PrivilegedResponse::Unit),
{
    lemma_listed(after.leases@, token@);
    lemma_listed(after.leases@, other);
    lemma_listed(before.leases@, other);
    lemma_listed(stale, other);
}

/// A daemon that may be shut down is told to, and says whether it is idle: whether no
/// lease is left once those given up for lost are gone. One that may not says so, and
/// changes nothing.
pub proof fn shutdown_waits_for_the_leases(
    before: ControlState,
    after: ControlState,
    stale: Seq<String>,
    outcome: DispatchOutcome,
    held: Seq<char>,
)
    requires
        dispatch::controlled(PrivilegedRequest::ShutdownIfIdle, before, after, stale, outcome),
    ensures
        !before.allow_shutdown ==> after == before && outcome == DispatchOutcome::Immediate(
            PrivilegedResponse::Error(ErrorReply::ShutdownDisabled),
        ),
        before.allow_shutdown ==> {
            &&& after.shutdown_requested
            &&& after.allow_shutdown
            &&& listed(after.leases@, held) <==> listed(before.leases@, held) && !listed(
                stale,
                held,
            )
            &&& outcome == DispatchOutcome::Immediate(
                PrivilegedResponse::Bool(after.leases@.len() == 0),
            )
        },
{
    lemma_listed(after.leases@, held);
    lemma_listed(before.leases@, held);
    lemma_listed(stale, held);
    if before.allow_shutdown {
        let left = control::tokens(after.leases@);
        if after.leases@.len() == 0 {
            assert(left =~= Set::<Seq<char>>::empty());
        } else {
            assert(left.contains(after.leases@[0]@));
        }
    }
}

} // verus!
