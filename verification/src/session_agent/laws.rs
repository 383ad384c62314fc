//! What holds of every run of the session agent, whatever the machine and the
//! privileged daemon reply.

use vstd::prelude::*;

use crate::client::{ClientOp, ClientReply};
use crate::privileged_api::{ConnectReason, ConnectionSummary, DisconnectReason};
use crate::session_agent;
use crate::session_agent::candidates;
use crate::session_agent::run;
use crate::session_agent::run::RunState;
use crate::session_agent::steps::{AgentOp, AgentReply, AgentState, AgentTurn};

pub mod done;

verus! {

/// `next` is how a command goes on from `turn` when `reply` comes back.
pub open spec fn went_on(turn: AgentTurn, reply: AgentReply, next: AgentTurn) -> bool {
    turn matches AgentTurn::Do { note: _, op: _, state } && state.accepts(reply)
        && session_agent::stepped(state, reply, next)
}

/// `turns` is a course that a command can take: it begins with `first`, and goes
/// on from each of `replies` as `resume` says.
pub open spec fn course(
    first: AgentTurn,
    replies: Seq<AgentReply>,
    turns: Seq<AgentTurn>,
) -> bool {
    &&& turns.len() == replies.len() + 1
    &&& turns[0] == first
    &&& forall|i: int|
        0 <= i < replies.len() ==> went_on(turns[i], #[trigger] replies[i], turns[i + 1])
}

/// The operation that a turn asks for.
pub open spec fn asked(turn: AgentTurn) -> Option<AgentOp> {
    match turn {
        AgentTurn::Do { note: _, op, state: _ } => Some(op),
        _ => None,
    }
}

/// The terminating signal came before step `k`.
pub open spec fn told_to_end(replies: Seq<AgentReply>, k: int) -> bool {
    exists|j: int| 0 <= j < k && #[trigger] replies[j] == AgentReply::Signal(Ok(true))
}

spec fn run_on_course(replies: Seq<AgentReply>, turns: Seq<AgentTurn>, k: int) -> bool {
    match turns[k] {
        AgentTurn::Do { note: _, op, state: AgentState::Run(state) } => match state {
            RunState::Blocking => k == 0 && op is BlockSigterm,
            RunState::Listing => k == 1 && op == run::listing(),
            RunState::Connecting { ids, at } => {
                &&& k == at + 2
                &&& at < ids@.len()
                &&& op == run::bringing_up(ids@[at as int])
                &&& replies[1] matches AgentReply::Client(ClientReply::Listed(Ok(list)))
                &&& ids@ == candidates::eligible_ids(list@)
            },
            RunState::Waiting => k > 1 && op is WaitSignal,
            RunState::TeardownListing => {
                &&& k > 2
                &&& op == run::listing()
                &&& replies[k - 1] == AgentReply::Signal(Ok(true))
            },
            RunState::Disconnecting { ids, at } => {
                &&& k > 3
                &&& at < ids@.len()
                &&& op == run::taking_down(ids@[at as int])
                &&& told_to_end(replies, k)
            },
        },
        AgentTurn::Do { .. } => false,
        AgentTurn::Done { .. } => told_to_end(replies, k),
        AgentTurn::Failed(_) => true,
    }
}

proof fn lemma_run(replies: Seq<AgentReply>, turns: Seq<AgentTurn>, k: int)
    requires
        course(run::run_begun(), replies, turns),
        0 <= k < turns.len(),
    ensures
        run_on_course(replies, turns, k),
        k > 0 ==> replies[0] matches AgentReply::Done(_),
        k > 0 && !(turns[k] is Failed) ==> replies[0] matches AgentReply::Done(Ok(_)),
    decreases k,
{
    if k > 0 {
        lemma_run(replies, turns, k - 1);
        assert(went_on(turns[k - 1], replies[k - 1], turns[k]));
        if told_to_end(replies, k - 1) {
            let j = choose|j: int|
                0 <= j < k - 1 && #[trigger] replies[j] == AgentReply::Signal(Ok(true));
            assert(replies[j] == AgentReply::Signal(Ok(true)));
        }
        if k > 1 {
            assert(replies[k - 2] == AgentReply::Signal(Ok(true)) ==> told_to_end(replies, k));
        }
    }
}

/// The terminating signal is held back before the agent does anything else: it
/// cannot end the agent before the agent took its connections down.
pub proof fn signal_is_held_back_first(
    replies: Seq<AgentReply>,
    turns: Seq<AgentTurn>,
    k: int,
    op: AgentOp,
)
    requires
        course(run::run_begun(), replies, turns),
        0 < k < turns.len(),
        asked(turns[k]) == Some(op),
    ensures
        asked(turns[0]) == Some(AgentOp::BlockSigterm),
        replies[0] matches AgentReply::Done(Ok(_)),
{
    lemma_run(replies, turns, k);
}

/// The agent brings a connection up only in the name of an automatic bring-up, and
/// only one that was listed as automatic, down, and not taken down by the user.
pub proof fn agent_brings_up_only_the_eligible(
    replies: Seq<AgentReply>,
    turns: Seq<AgentTurn>,
    k: int,
    id: crate::privileged_api::ConnectionId,
    debug: bool,
    reason: ConnectReason,
)
    requires
        course(run::run_begun(), replies, turns),
        0 <= k < turns.len(),
        asked(turns[k]) == Some(AgentOp::Client(ClientOp::Connect { id, debug, reason })),
    ensures
        reason == ConnectReason::Reconciliation,
        !debug,
        replies[1] matches AgentReply::Client(ClientReply::Listed(Ok(list)))
            && candidates::listed_eligible(list@, id),
{
    lemma_run(replies, turns, k);
    if let AgentReply::Client(ClientReply::Listed(Ok(list))) = replies[1] {
        candidates::candidates_are_the_eligible(list@);
        if let AgentTurn::Do {
            note: _,
            op: _,
            state: AgentState::Run(RunState::Connecting { ids, at }),
        } = turns[k] {
            assert(candidates::listed_eligible(
                list@,
                candidates::eligible_ids(list@)[at as int],
            ));
        }
    }
}

/// The agent asks for every eligible connection to come up, one after the other,
/// whatever came of those before.
pub proof fn agent_leaves_no_candidate_out(
    replies: Seq<AgentReply>,
    turns: Seq<AgentTurn>,
    list: Vec<ConnectionSummary>,
    n: int,
)
    requires
        course(run::run_begun(), replies, turns),
        replies.len() > 1,
        replies[1] == AgentReply::Client(ClientReply::Listed(Ok(list))),
        0 <= n < candidates::eligible_ids(list@).len(),
        n + 2 < turns.len(),
    ensures
        asked(turns[n + 2]) == Some(run::bringing_up(candidates::eligible_ids(list@)[n])),
    decreases n,
{
    lemma_run(replies, turns, n + 2);
    lemma_run(replies, turns, n + 1);
    assert(went_on(turns[n + 1], replies[n + 1], turns[n + 2]));
    if n > 0 {
        agent_leaves_no_candidate_out(replies, turns, list, n - 1);
    } else {
        lemma_run(replies, turns, 0);
        assert(went_on(turns[0], replies[0], turns[1]));
    }
}

/// At its end the agent asks for every connection that is up to go down, one after the
/// other, whatever came of those before.
pub proof fn agent_leaves_no_connection_up(
    replies: Seq<AgentReply>,
    turns: Seq<AgentTurn>,
    k: int,
    list: Vec<ConnectionSummary>,
    n: int,
)
    requires
        course(run::run_begun(), replies, turns),
        0 <= k < replies.len(),
        told_to_end(replies, k),
        replies[k] == AgentReply::Client(ClientReply::Listed(Ok(list))),
        0 <= n < crate::client::connected_ids(list@).len(),
        k + 1 + n < turns.len(),
    ensures
        asked(turns[k + 1 + n]) == Some(
            run::taking_down(crate::client::connected_ids(list@)[n]),
        ),
{
    lemma_teardown(replies, turns, k, list, n);
}

proof fn lemma_teardown(
    replies: Seq<AgentReply>,
    turns: Seq<AgentTurn>,
    k: int,
    list: Vec<ConnectionSummary>,
    n: int,
)
    requires
        course(run::run_begun(), replies, turns),
        0 <= k < replies.len(),
        told_to_end(replies, k),
        replies[k] == AgentReply::Client(ClientReply::Listed(Ok(list))),
        0 <= n < crate::client::connected_ids(list@).len(),
        k + 1 + n < turns.len(),
    ensures
        asked(turns[k + 1 + n]) == Some(
            run::taking_down(crate::client::connected_ids(list@)[n]),
        ),
        turns[k + 1 + n] matches AgentTurn::Do {
            note: _,
            op: _,
            state: AgentState::Run(RunState::Disconnecting { ids, at }),
        } && ids@ == crate::client::connected_ids(list@) && at == n,
    decreases n,
{
    if n == 0 {
        lemma_run(replies, turns, k);
        assert(went_on(turns[k], replies[k], turns[k + 1]));
    } else {
        lemma_teardown(replies, turns, k, list, n - 1);
        assert(went_on(turns[k + n], replies[k + n], turns[k + n + 1]));
    }
}

/// The agent takes a connection down, and ends, only after the terminating signal
/// came; and it takes connections down in the name of a session that ends, which
/// leaves the user's wish alone.
pub proof fn agent_takes_down_only_at_the_end(
    replies: Seq<AgentReply>,
    turns: Seq<AgentTurn>,
    k: int,
)
    requires
        course(run::run_begun(), replies, turns),
        0 <= k < turns.len(),
    ensures
        asked(turns[k]) matches Some(AgentOp::Client(ClientOp::Disconnect { id: _, reason, .. }))
            ==> told_to_end(replies, k) && reason == DisconnectReason::SessionTeardown,
        turns[k] is Done ==> told_to_end(replies, k),
{
    lemma_run(replies, turns, k);
}

} // verus!
