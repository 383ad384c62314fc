//! `connection add`: storing a connection, and clearing away what it replaces.

use vstd::prelude::*;

use crate::client::{ClientOp, ClientReply};
use crate::connection_cli::steps;
use crate::connection_cli::steps::{
    CliError, CliNote, CliOp, CliReply, CliReport, CliState, CliTurn,
};
use crate::privileged_api::{
    ConnectionId, ConnectionScope, ConnectionStartMode, ConnectionSummary,
};

verus! {

/// A connection to be added, as the command line describes it.
#[derive(Debug)]
pub struct AddArgs {
    pub file: String,
    pub global: bool,
    pub name: Option<String>,
    pub mtu: Option<u16>,
    pub force: bool,
    pub start_mode: ConnectionStartMode,
}

/// What an addition is waiting for.
#[derive(Debug)]
pub enum AddState {
    Reading(AddArgs),
    Adding(AddArgs),
    /// The connection that was added, and its name.
    ListingStale { id: ConnectionId, name: String },
    /// The connections that it replaces, and the one that is being removed.
    RemovingStale { id: ConnectionId, name: String, stale: Vec<ConnectionId>, at: usize },
}

impl AddState {
    /// `reply` is of the kind that the addition is waiting for.
    pub open spec fn accepts(self, reply: CliReply) -> bool {
        match self {
            AddState::Reading(args) => reply is Text && (args.force ==> args.name is Some),
            AddState::Adding(args) => (reply matches CliReply::Client(ClientReply::Added(_))) && (
            args.force ==> args.name is Some),
            AddState::ListingStale { .. } => reply matches CliReply::Client(ClientReply::Listed(_)),
            AddState::RemovingStale { stale, at, .. } => at < stale@.len() && reply matches
                CliReply::Client(ClientReply::Done(_)),
        }
    }
}

/// The addition goes on with `op`.
pub open spec fn next(note: Option<CliNote>, op: CliOp, state: AddState) -> CliTurn {
    CliTurn::Do { note, op, state: CliState::Add(state) }
}

fn go_on(note: Option<CliNote>, op: CliOp, state: AddState) -> (turn: CliTurn)
    ensures
        turn == next(note, op, state),
{
    CliTurn::Do { note, op, state: CliState::Add(state) }
}

/// The connection has the name and is not the one that was added.
pub open spec fn superseded(conn: ConnectionSummary, id: ConnectionId, name: Seq<char>) -> bool {
    !conn.id.same(id) && (conn.name matches Some(own) && own@ == name)
}

/// The ids of the connections that were superseded, in their order.
pub open spec fn stale_ids(
    list: Seq<ConnectionSummary>,
    id: ConnectionId,
    name: Seq<char>,
) -> Seq<ConnectionId>
    decreases list.len(),
{
    if list.len() == 0 {
        Seq::empty()
    } else {
        let before = stale_ids(list.drop_last(), id, name);
        if superseded(list.last(), id, name) {
            before.push(list.last().id)
        } else {
            before
        }
    }
}

/// How an addition begins: with the configuration file.
pub open spec fn add_begun(args: AddArgs) -> CliTurn {
    next(None, CliOp::ReadFile { path: args.file }, AddState::Reading(args))
}

/// Starts to add a connection.
pub fn cmd_add(args: AddArgs) -> (turn: CliTurn)
    requires
        args.force ==> args.name is Some,
    ensures
        turn == add_begun(args),
        steps::ready(turn),
{
    let path = args.file.clone();
    go_on(None, CliOp::ReadFile { path }, AddState::Reading(args))
}

/// The clearing away goes on at `at`: with the next connection, or it is over.
pub open spec fn clearing(
    id: ConnectionId,
    name: String,
    stale: Seq<ConnectionId>,
    at: int,
    turn: CliTurn,
) -> bool {
    if at < stale.len() {
        &&& turn matches CliTurn::Do {
            note,
            op,
            state: CliState::Add(AddState::RemovingStale { id: by, name: same, stale: all, at: now }),
        }
        &&& note == Some(CliNote::RemovingStale { id: stale[at], name, by: id })
        &&& op == CliOp::Client(ClientOp::Remove { id: stale[at] })
        &&& by == id
        &&& same == name
        &&& all@ == stale
        &&& now == at
    } else {
        turn == CliTurn::Done { note: None, report: CliReport::Said }
    }
}

/// How an addition goes on from an answer. Whatever came back as the id is the
/// current record of the content; so another one of the same name in the same
/// scope is stale, and where the caller insists it is removed.
pub open spec fn add_stepped(state: AddState, reply: CliReply, turn: CliTurn) -> bool {
    match (state, reply) {
        (AddState::Reading(args), CliReply::Text(Ok(conf_text))) => turn == next(
            None,
            CliOp::Client(
                ClientOp::Add {
                    conf_text,
                    global: args.global,
                    start_mode: args.start_mode,
                    name: args.name,
                    mtu: args.mtu,
                    force: args.force,
                },
            ),
            AddState::Adding(args),
        ),
        (AddState::Reading(args), CliReply::Text(Err(cause))) => turn == CliTurn::Failed {
            note: None,
            error: CliError::FileUnreadable { path: args.file, cause },
        },
        (AddState::Adding(args), CliReply::Client(ClientReply::Added(Ok(id)))) => turn == (
        if args.force {
            next(
                Some(CliNote::Added { id }),
                CliOp::Client(
                    ClientOp::List {
                        scope: if args.global {
                            ConnectionScope::Global
                        } else {
                            ConnectionScope::Mine
                        },
                        autostart: true,
                    },
                ),
                AddState::ListingStale { id, name: args.name->0 },
            )
        } else {
            CliTurn::Done { note: Some(CliNote::Added { id }), report: CliReport::Said }
        }),
        (AddState::Adding(_), CliReply::Client(ClientReply::Added(Err(cause)))) => turn
            == CliTurn::Failed { note: None, error: CliError::Daemon { cause } },
        (AddState::ListingStale { id, name }, CliReply::Client(ClientReply::Listed(Ok(list)))) =>
            clearing(id, name, stale_ids(list@, id, name@), 0, turn),
        (AddState::ListingStale { .. }, CliReply::Client(ClientReply::Listed(Err(cause)))) => turn
            == CliTurn::Failed { note: None, error: CliError::Daemon { cause } },
        (
            AddState::RemovingStale { id, name, stale, at },
            CliReply::Client(ClientReply::Done(Ok(_))),
        ) => clearing(id, name, stale@, at + 1, turn),
        (AddState::RemovingStale { .. }, CliReply::Client(ClientReply::Done(Err(cause)))) => turn
            == CliTurn::Failed { note: None, error: CliError::Daemon { cause } },
        _ => false,
    }
}

fn pick_stale(list: &Vec<ConnectionSummary>, id: &ConnectionId, name: &String) -> (ids: Vec<
    ConnectionId,
>)
    ensures
        ids@ == stale_ids(list@, *id, name@),
{
    let mut ids: Vec<ConnectionId> = Vec::new();
    let mut i: usize = 0;
    while i < list.len()
        invariant
            i <= list@.len(),
            ids@ == stale_ids(list@.take(i as int), *id, name@),
        decreases list@.len() - i,
    {
        let conn = &list[i];
        assert(list@.take(i + 1).drop_last() =~= list@.take(i as int));
        let same_name: bool = match &conn.name {
            Some(own) => *own == *name,
            None => false,
        };
        if !conn.id.is(id) && same_name {
            ids.push(conn.id.copy());
        }
        i += 1;
    }
    assert(list@.take(i as int) =~= list@);
    ids
}

fn clear_from(id: ConnectionId, name: String, stale: Vec<ConnectionId>, at: usize) -> (turn: CliTurn)
    ensures
        clearing(id, name, stale@, at as int, turn),
        steps::ready(turn),
{
    if at < stale.len() {
        let note = CliNote::RemovingStale {
            id: stale[at].copy(),
            name: name.clone(),
            by: id.copy(),
        };
        let op = CliOp::Client(ClientOp::Remove { id: stale[at].copy() });
        return go_on(Some(note), op, AddState::RemovingStale { id, name, stale, at });
    }
    CliTurn::Done { note: None, report: CliReport::Said }
}

fn fail(cause: String) -> (turn: CliTurn)
    ensures
        turn == (CliTurn::Failed { note: None, error: CliError::Daemon { cause } }),
{
    CliTurn::Failed { note: None, error: CliError::Daemon { cause } }
}

fn copy_name(name: &Option<String>) -> (result: Option<String>)
    ensures
        result == *name,
{
    match name {
        Some(name) => Some(name.clone()),
        None => None,
    }
}

/// Goes on with an addition from an answer.
pub fn resume_add(state: AddState, reply: CliReply) -> (turn: CliTurn)
    requires
        state.accepts(reply),
    ensures
        add_stepped(state, reply, turn),
        steps::ready(turn),
{
    match (state, reply) {
        (AddState::Reading(args), CliReply::Text(result)) => match result {
            Ok(conf_text) => {
                let op = CliOp::Client(
                    ClientOp::Add {
                        conf_text,
                        global: args.global,
                        start_mode: args.start_mode,
                        name: copy_name(&args.name),
                        mtu: args.mtu,
                        force: args.force,
                    },
                );
                go_on(None, op, AddState::Adding(args))
            },
            Err(cause) => CliTurn::Failed {
                note: None,
                error: CliError::FileUnreadable { path: args.file, cause },
            },
        },
        (AddState::Adding(args), CliReply::Client(ClientReply::Added(result))) => match result {
            Ok(id) => {
                let note = Some(CliNote::Added { id: id.copy() });
                if !args.force {
                    return CliTurn::Done { note, report: CliReport::Said };
                }
                let scope = if args.global {
                    ConnectionScope::Global
                } else {
                    ConnectionScope::Mine
                };
                match args.name {
                    Some(name) => go_on(
                        note,
                        CliOp::Client(ClientOp::List { scope, autostart: true }),
                        AddState::ListingStale { id, name },
                    ),
                    None => vstd::pervasive::unreached(),
                }
            },
            Err(cause) => fail(cause),
        },
        (AddState::ListingStale { id, name }, CliReply::Client(ClientReply::Listed(result))) => {
            match result {
                Ok(list) => {
                    let stale = pick_stale(&list, &id, &name);
                    clear_from(id, name, stale, 0)
                },
                Err(cause) => fail(cause),
            }
        },
        (
            AddState::RemovingStale { id, name, stale, at },
            CliReply::Client(ClientReply::Done(result)),
        ) => match result {
            Ok(_) => {
                assert(at < stale.len());
                clear_from(id, name, stale, at + 1)
            },
            Err(cause) => fail(cause),
        },
        (_, _) => vstd::pervasive::unreached(),
    }
}

} // verus!
