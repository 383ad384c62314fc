//! What holds of every connection command from its beginning to its end,
//! whatever the privileged daemon replies.

use vstd::prelude::*;

use crate::client::{ClientOp, ClientReply};
use crate::connection_cli;
use crate::connection_cli::add;
use crate::connection_cli::add::{AddArgs, AddState};
use crate::connection_cli::all;
use crate::connection_cli::all::DisconnectAllState;
use crate::connection_cli::one;
use crate::connection_cli::one::{OneState, Task};
use crate::connection_cli::steps::{CliError, CliOp, CliReply, CliState, CliTurn};
use crate::privileged_api::{ConnectionId, ConnectionScope, ConnectionSummary};

pub mod asked;
pub mod printed;

verus! {

/// `next` is how a command goes on from `turn` when `reply` comes back.
pub open spec fn went_on(turn: CliTurn, reply: CliReply, next: CliTurn) -> bool {
    turn matches CliTurn::Do { note: _, op: _, state } && state.accepts(reply)
        && connection_cli::stepped(state, reply, next)
}

/// `turns` is a course that a command can take: it begins with `first`, and goes
/// on from each of `replies` as `resume` says.
pub open spec fn course(first: CliTurn, replies: Seq<CliReply>, turns: Seq<CliTurn>) -> bool {
    &&& turns.len() == replies.len() + 1
    &&& turns[0] == first
    &&& forall|i: int|
        0 <= i < replies.len() ==> went_on(turns[i], #[trigger] replies[i], turns[i + 1])
}

/// What a turn asks for.
pub open spec fn asked(turn: CliTurn) -> Option<CliOp> {
    match turn {
        CliTurn::Do { note: _, op, state: _ } => Some(op),
        _ => None,
    }
}

// ---- one connection ---------------------------------------------------------

/// The reply lists connections of which exactly this one has the name.
pub open spec fn lists_only(reply: CliReply, name: Seq<char>, id: ConnectionId) -> bool {
    reply matches CliReply::Client(ClientReply::Listed(Ok(list))) && one::named_ids(list@, name)
        == seq![id]
}

/// The reply lists connections of which none has the name.
pub open spec fn lists_none(reply: CliReply, name: Seq<char>) -> bool {
    reply matches CliReply::Client(ClientReply::Listed(Ok(list))) && one::named_ids(list@, name)
        == Seq::<ConnectionId>::empty()
}

/// What the command was given means the connection `id`: it is its id, or exactly
/// one of the user's own connections has it as its name, or none of them does and
/// exactly one of the global ones.
pub open spec fn means(
    wanted: String,
    id: ConnectionId,
    replies: Seq<CliReply>,
    turns: Seq<CliTurn>,
    k: int,
) -> bool {
    ||| k == 1 && replies[0] == CliReply::Id(Some(id))
    ||| k == 2 && asked(turns[1]) == Some(one::listing(ConnectionScope::Mine)) && lists_only(
        replies[1],
        wanted@,
        id,
    )
    ||| k == 3 && asked(turns[1]) == Some(one::listing(ConnectionScope::Mine)) && lists_none(
        replies[1],
        wanted@,
    ) && asked(turns[2]) == Some(one::listing(ConnectionScope::Global)) && lists_only(
        replies[2],
        wanted@,
        id,
    )
}

spec fn one_on_course(
    wanted: String,
    task: Task,
    replies: Seq<CliReply>,
    turns: Seq<CliTurn>,
    k: int,
) -> bool {
    match turns[k] {
        CliTurn::Do { note: _, op, state: CliState::One(state) } => match state {
            OneState::Parsing { wanted: same, task: job } => {
                &&& k == 0
                &&& same == wanted
                &&& job == task
                &&& op is ParseId
            },
            OneState::ListingMine { wanted: same, task: job } => {
                &&& k == 1
                &&& same == wanted
                &&& job == task
                &&& op == one::listing(ConnectionScope::Mine)
            },
            OneState::ListingGlobal { wanted: same, task: job } => {
                &&& k == 2
                &&& same == wanted
                &&& job == task
                &&& op == one::listing(ConnectionScope::Global)
                &&& asked(turns[1]) == Some(one::listing(ConnectionScope::Mine))
                &&& lists_none(replies[1], wanted@)
            },
            OneState::Acting { id, task: job } => {
                &&& job == task
                &&& op == one::request(id, task)
                &&& means(wanted, id, replies, turns, k)
            },
        },
        CliTurn::Do { .. } => false,
        _ => true,
    }
}

proof fn lemma_one(
    wanted: String,
    task: Task,
    replies: Seq<CliReply>,
    turns: Seq<CliTurn>,
    k: int,
)
    requires
        course(one::one_begun(wanted, task), replies, turns),
        0 <= k < turns.len(),
    ensures
        one_on_course(wanted, task, replies, turns, k),
    decreases k,
{
    if k > 0 {
        lemma_one(wanted, task, replies, turns, k - 1);
        assert(went_on(turns[k - 1], replies[k - 1], turns[k]));
        if let CliReply::Client(ClientReply::Listed(Ok(list))) = replies[k - 1] {
            let ids = one::named_ids(list@, wanted@);
            if ids.len() == 0 {
                assert(ids =~= Seq::<ConnectionId>::empty());
            } else if ids.len() == 1 {
                assert(ids =~= seq![ids[0]]);
            }
        }
    }
}

/// A command on one connection asks the daemon to do something only with the one
/// connection that is meant; where the name fits none or several, it asks for
/// nothing but the lists.
pub proof fn commands_act_only_on_what_is_meant(
    wanted: String,
    task: Task,
    replies: Seq<CliReply>,
    turns: Seq<CliTurn>,
    k: int,
    op: ClientOp,
)
    requires
        course(one::one_begun(wanted, task), replies, turns),
        0 <= k < turns.len(),
        asked(turns[k]) == Some(CliOp::Client(op)),
        !(op is List),
    ensures
        exists|id: ConnectionId| #[trigger]
            means(wanted, id, replies, turns, k) && one::request(id, task) == CliOp::Client(op),
{
    lemma_one(wanted, task, replies, turns, k);
}

// ---- adding -----------------------------------------------------------------

/// What an addition clears away is exactly what it supersedes: the other
/// connections of the same name, and never the one that was just added.
pub proof fn only_the_superseded_are_stale(
    list: Seq<ConnectionSummary>,
    id: ConnectionId,
    name: Seq<char>,
)
    ensures
        forall|i: int|
            0 <= i < add::stale_ids(list, id, name).len() ==> !(#[trigger] add::stale_ids(
                list,
                id,
                name,
            )[i]).same(id) && listed_superseded(list, id, name, add::stale_ids(list, id, name)[i]),
        forall|j: int|
            0 <= j < list.len() && add::superseded(#[trigger] list[j], id, name)
                ==> add::stale_ids(list, id, name).contains(list[j].id),
    decreases list.len(),
{
    if list.len() > 0 {
        let rest = list.drop_last();
        let before = add::stale_ids(rest, id, name);
        let ids = add::stale_ids(list, id, name);
        only_the_superseded_are_stale(rest, id, name);
        assert forall|i: int| 0 <= i < ids.len() implies !(#[trigger] ids[i]).same(id)
            && listed_superseded(list, id, name, ids[i]) by {
            if i < before.len() {
                assert(ids[i] == before[i]);
                let j = choose|j: int|
                    0 <= j < rest.len() && add::superseded(#[trigger] rest[j], id, name)
                        && rest[j].id == before[i];
                assert(list[j] == rest[j]);
            } else {
                assert(add::superseded(list[list.len() - 1], id, name));
            }
        }
        assert forall|j: int|
            0 <= j < list.len() && add::superseded(#[trigger] list[j], id, name) implies ids.contains(
            list[j].id,
        ) by {
            if j < rest.len() {
                assert(rest[j] == list[j]);
                let i = choose|i: int| 0 <= i < before.len() && before[i] == rest[j].id;
                assert(ids[i] == before[i]);
            } else {
                assert(ids[before.len() as int] == list[j].id);
            }
        }
    }
}

/// `stale` is listed, as superseded.
pub open spec fn listed_superseded(
    list: Seq<ConnectionSummary>,
    id: ConnectionId,
    name: Seq<char>,
    stale: ConnectionId,
) -> bool {
    exists|j: int|
        0 <= j < list.len() && add::superseded(#[trigger] list[j], id, name) && list[j].id == stale
}

spec fn add_on_course(args: AddArgs, replies: Seq<CliReply>, turns: Seq<CliTurn>, k: int) -> bool {
    match turns[k] {
        CliTurn::Do { note: _, op, state: CliState::Add(state) } => match state {
            AddState::Reading(same) => k == 0 && same == args && op is ReadFile,
            AddState::Adding(same) => {
                &&& k == 1
                &&& same == args
                &&& op matches CliOp::Client(asked) && asked is Add
            },
            AddState::ListingStale { id, name } => {
                &&& k == 2
                &&& args.force
                &&& args.name == Some(name)
                &&& replies[1] == CliReply::Client(ClientReply::Added(Ok(id)))
                &&& op matches CliOp::Client(asked) && asked is List
            },
            AddState::RemovingStale { id, name, stale, at } => {
                &&& k > 2
                &&& args.force
                &&& args.name == Some(name)
                &&& replies[1] == CliReply::Client(ClientReply::Added(Ok(id)))
                &&& at < stale@.len()
                &&& op == CliOp::Client(ClientOp::Remove { id: stale@[at as int] })
                &&& replies[2] matches CliReply::Client(ClientReply::Listed(Ok(list))) && stale@
                    == add::stale_ids(list@, id, name@)
            },
        },
        CliTurn::Do { .. } => false,
        _ => true,
    }
}

proof fn lemma_add(args: AddArgs, replies: Seq<CliReply>, turns: Seq<CliTurn>, k: int)
    requires
        args.force ==> args.name is Some,
        course(add::add_begun(args), replies, turns),
        0 <= k < turns.len(),
    ensures
        add_on_course(args, replies, turns, k),
    decreases k,
{
    if k > 0 {
        lemma_add(args, replies, turns, k - 1);
        assert(went_on(turns[k - 1], replies[k - 1], turns[k]));
    }
}

/// An addition removes a connection only where the caller insists, only after the
/// new one was stored, and only one of the same name that is not the new one. So
/// content that is submitted again unchanged is never removed, whatever its name.
pub proof fn additions_remove_only_the_superseded(
    args: AddArgs,
    replies: Seq<CliReply>,
    turns: Seq<CliTurn>,
    k: int,
    removed: ConnectionId,
)
    requires
        args.force ==> args.name is Some,
        course(add::add_begun(args), replies, turns),
        0 <= k < turns.len(),
        asked(turns[k]) == Some(CliOp::Client(ClientOp::Remove { id: removed })),
    ensures
        args.force,
        replies[1] matches CliReply::Client(ClientReply::Added(Ok(id))) && !removed.same(id) && (
        replies[2] matches CliReply::Client(ClientReply::Listed(Ok(list))) && listed_superseded(
            list@,
            id,
            args.name->0@,
            removed,
        )),
{
    lemma_add(args, replies, turns, k);
    if let CliReply::Client(ClientReply::Added(Ok(id))) = replies[1] {
        if let CliReply::Client(ClientReply::Listed(Ok(list))) = replies[2] {
            only_the_superseded_are_stale(list@, id, args.name->0@);
            if let CliTurn::Do {
                note: _,
                op: _,
                state: CliState::Add(AddState::RemovingStale { id: _, name: _, stale, at }),
            } = turns[k] {
                assert(add::stale_ids(list@, id, args.name->0@)[at as int] == removed);
            }
        }
    }
}

// ---- all connections --------------------------------------------------------

/// One of the first `n` connections could not be taken down.
pub open spec fn one_failed(replies: Seq<CliReply>, n: int) -> bool {
    exists|j: int|
        1 <= j <= n && (#[trigger] replies[j] matches CliReply::Client(
            ClientReply::Done(Err(_)),
        ))
}

proof fn lemma_all(replies: Seq<CliReply>, turns: Seq<CliTurn>, list: Vec<ConnectionSummary>, n: int)
    requires
        course(all::all_begun(), replies, turns),
        replies.len() > 0,
        replies[0] == CliReply::Client(ClientReply::Listed(Ok(list))),
        crate::client::connected_ids(list@).len() > 0,
        0 <= n <= crate::client::connected_ids(list@).len(),
        n + 1 < turns.len(),
    ensures
        n < crate::client::connected_ids(list@).len() ==> asked(turns[n + 1]) == Some(
            all::taking_down(crate::client::connected_ids(list@)[n]),
        ) && (turns[n + 1] matches CliTurn::Do {
            note: _,
            op: _,
            state: CliState::DisconnectAll(DisconnectAllState::Disconnecting { ids, at, failed }),
        } && ids@ == crate::client::connected_ids(list@) && at == n && failed == one_failed(
            replies,
            n,
        )),
        n == crate::client::connected_ids(list@).len() ==> if one_failed(replies, n) {
            turns[n + 1] matches CliTurn::Failed { note: _, error: CliError::DisconnectsFailed }
        } else {
            turns[n + 1] is Done
        },
    decreases n,
{
    assert(went_on(turns[n], replies[n], turns[n + 1]));
    if n > 0 {
        lemma_all(replies, turns, list, n - 1);
        if one_failed(replies, n - 1) {
            let j = choose|j: int|
                1 <= j <= n - 1 && (#[trigger] replies[j] matches CliReply::Client(
                    ClientReply::Done(Err(_)),
                ));
            assert(replies[j] matches CliReply::Client(ClientReply::Done(Err(_))));
            assert(one_failed(replies, n));
        }
        if replies[n] matches CliReply::Client(ClientReply::Done(Err(_))) {
            assert(one_failed(replies, n));
        }
    }
}

/// Every connection that is up is asked to go down, one after the other, whatever
/// came of those before.
pub proof fn disconnect_all_leaves_none_out(
    replies: Seq<CliReply>,
    turns: Seq<CliTurn>,
    list: Vec<ConnectionSummary>,
    n: int,
)
    requires
        course(all::all_begun(), replies, turns),
        replies.len() > 0,
        replies[0] == CliReply::Client(ClientReply::Listed(Ok(list))),
        0 <= n < crate::client::connected_ids(list@).len(),
        n + 1 < turns.len(),
    ensures
        asked(turns[n + 1]) == Some(
            all::taking_down(crate::client::connected_ids(list@)[n]),
        ),
{
    lemma_all(replies, turns, list, n);
}

/// When all were asked, the command fails exactly when one of them did not go
/// down.
pub proof fn disconnect_all_fails_for_each_failure(
    replies: Seq<CliReply>,
    turns: Seq<CliTurn>,
    list: Vec<ConnectionSummary>,
)
    requires
        course(all::all_begun(), replies, turns),
        replies.len() == crate::client::connected_ids(list@).len() + 1,
        crate::client::connected_ids(list@).len() > 0,
        replies[0] == CliReply::Client(ClientReply::Listed(Ok(list))),
    ensures
        turns.last() is Done || turns.last() is Failed,
        turns.last() is Failed <==> one_failed(replies, replies.len() - 1),
{
    lemma_all(replies, turns, list, replies.len() - 1);
}

} // verus!
