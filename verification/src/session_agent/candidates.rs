//! Which connections the session agent brings up.

use vstd::prelude::*;

use crate::privileged_api::{ConnectionId, ConnectionStartMode, ConnectionSummary};

verus! {

/// The agent brings the connection up: it is to start by itself, it is down, and
/// the user did not take it down.
pub open spec fn eligible(conn: ConnectionSummary) -> bool {
    conn.start_mode == ConnectionStartMode::Automatic && !conn.connected && !conn.user_disconnected
}

/// The ids of the connections that the agent brings up, in their order.
pub open spec fn eligible_ids(connections: Seq<ConnectionSummary>) -> Seq<ConnectionId>
    decreases connections.len(),
{
    if connections.len() == 0 {
        Seq::empty()
    } else {
        let before = eligible_ids(connections.drop_last());
        if eligible(connections.last()) {
            before.push(connections.last().id)
        } else {
            before
        }
    }
}

/// The connections, out of the user's own, that a start of the agent brings up.
/// One that the user took down stays down: the agent may be started again in the
/// middle of a session.
pub fn connect_candidates(connections: &[ConnectionSummary]) -> (ids: Vec<ConnectionId>)
    ensures
        ids@ == eligible_ids(connections@),
{
    let mut ids: Vec<ConnectionId> = Vec::new();
    let mut i: usize = 0;
    while i < connections.len()
        invariant
            i <= connections@.len(),
            ids@ == eligible_ids(connections@.take(i as int)),
        decreases connections@.len() - i,
    {
        let conn = &connections[i];
        assert(connections@.take(i + 1).drop_last() =~= connections@.take(i as int));
        if conn.start_mode == ConnectionStartMode::Automatic && !conn.connected
            && !conn.user_disconnected {
            ids.push(conn.id.copy());
        }
        i += 1;
    }
    assert(connections@.take(i as int) =~= connections@);
    ids
}

/// The agent would bring the connection up, had the user not taken it down.
pub open spec fn passed_over(conn: ConnectionSummary) -> bool {
    conn.start_mode == ConnectionStartMode::Automatic && !conn.connected && conn.user_disconnected
}

/// The ids of the connections that the agent leaves down for the user's sake, in their
/// order.
pub open spec fn passed_over_ids(connections: Seq<ConnectionSummary>) -> Seq<ConnectionId>
    decreases connections.len(),
{
    if connections.len() == 0 {
        Seq::empty()
    } else {
        let before = passed_over_ids(connections.drop_last());
        if passed_over(connections.last()) {
            before.push(connections.last().id)
        } else {
            before
        }
    }
}

/// The connections that a start of the agent leaves down because the user took them
/// down.
pub fn skipped_connections(connections: &[ConnectionSummary]) -> (ids: Vec<ConnectionId>)
    ensures
        ids@ == passed_over_ids(connections@),
{
    let mut ids: Vec<ConnectionId> = Vec::new();
    let mut i: usize = 0;
    while i < connections.len()
        invariant
            i <= connections@.len(),
            ids@ == passed_over_ids(connections@.take(i as int)),
        decreases connections@.len() - i,
    {
        let conn = &connections[i];
        assert(connections@.take(i + 1).drop_last() =~= connections@.take(i as int));
        if conn.start_mode == ConnectionStartMode::Automatic && !conn.connected
            && conn.user_disconnected {
            ids.push(conn.id.copy());
        }
        i += 1;
    }
    assert(connections@.take(i as int) =~= connections@);
    ids
}

/// `id` is listed, as eligible.
pub open spec fn listed_eligible(connections: Seq<ConnectionSummary>, id: ConnectionId) -> bool {
    exists|j: int|
        0 <= j < connections.len() && eligible(#[trigger] connections[j]) && connections[j].id == id
}

/// Every connection that the agent brings up is one that was listed as eligible,
/// and every one that was is brought up.
pub proof fn candidates_are_the_eligible(connections: Seq<ConnectionSummary>)
    ensures
        forall|i: int|
            0 <= i < eligible_ids(connections).len() ==> listed_eligible(
                connections,
                #[trigger] eligible_ids(connections)[i],
            ),
        forall|j: int|
            0 <= j < connections.len() && eligible(#[trigger] connections[j]) ==> eligible_ids(
                connections,
            ).contains(connections[j].id),
    decreases connections.len(),
{
    if connections.len() > 0 {
        let rest = connections.drop_last();
        let before = eligible_ids(rest);
        let ids = eligible_ids(connections);
        candidates_are_the_eligible(rest);
        assert forall|i: int| 0 <= i < ids.len() implies listed_eligible(
            connections,
            #[trigger] ids[i],
        ) by {
            if i < before.len() {
                assert(ids[i] == before[i]);
                let j = choose|j: int|
                    0 <= j < rest.len() && eligible(#[trigger] rest[j]) && rest[j].id == before[i];
                assert(connections[j] == rest[j]);
            } else {
                assert(eligible(connections[connections.len() - 1]));
            }
        }
        assert forall|j: int|
            0 <= j < connections.len() && eligible(#[trigger] connections[j]) implies ids.contains(
            connections[j].id,
        ) by {
            if j < rest.len() {
                assert(rest[j] == connections[j]);
                let i = choose|i: int| 0 <= i < before.len() && before[i] == rest[j].id;
                assert(ids[i] == before[i]);
            } else {
                assert(ids[before.len() as int] == connections[j].id);
            }
        }
    }
}

/// A connection whose record says that the user took it down is shown so, and is
/// not eligible: the agent never selects it.
pub proof fn users_disconnect_keeps_the_agent_off(
    record: crate::privileged::store::StoredConnection,
    summary: ConnectionSummary,
    connected: bool,
    include_fingerprint: bool,
)
    requires
        crate::privileged::query::shows(summary, record, connected, include_fingerprint),
        record.user_disconnected,
    ensures
        summary.user_disconnected,
        !eligible(summary),
{
}

} // verus!
