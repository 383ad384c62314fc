//! The commands on one connection, which is given by its id or by its name.

use vstd::prelude::*;

use crate::client::{ClientOp, ClientReply};
use crate::connection_cli::steps;
use crate::connection_cli::steps::{CliError, CliOp, CliReply, CliReport, CliState, CliTurn};
use crate::privileged_api::{
    ConnectReason, ConnectionId, ConnectionScope, ConnectionStartMode, ConnectionSummary,
    DisconnectReason,
};

verus! {

/// What is to be done with the connection.
#[derive(Debug, Clone, Copy)]
pub enum Task {
    Remove,
    Connect { debug: bool },
    Disconnect,
    SetMode { start_mode: ConnectionStartMode },
    Get,
}

/// What a command on one connection is waiting for.
#[derive(Debug)]
pub enum OneState {
    Parsing { wanted: String, task: Task },
    ListingMine { wanted: String, task: Task },
    ListingGlobal { wanted: String, task: Task },
    Acting { id: ConnectionId, task: Task },
}

impl OneState {
    /// `reply` is of the kind that the command is waiting for.
    pub open spec fn accepts(self, reply: CliReply) -> bool {
        match self {
            OneState::Parsing { .. } => reply is Id,
            OneState::ListingMine { .. } => reply matches CliReply::Client(ClientReply::Listed(_)),
            OneState::ListingGlobal { .. } => reply matches CliReply::Client(
                ClientReply::Listed(_),
            ),
            OneState::Acting { id: _, task: Task::Get } => reply matches CliReply::Client(
                ClientReply::Shown(_),
            ),
            OneState::Acting { .. } => reply matches CliReply::Client(ClientReply::Done(_)),
        }
    }
}

/// The command goes on with `op`.
pub open spec fn next(op: CliOp, state: OneState) -> CliTurn {
    CliTurn::Do { note: None, op, state: CliState::One(state) }
}

fn go_on(op: CliOp, state: OneState) -> (turn: CliTurn)
    ensures
        turn == next(op, state),
{
    CliTurn::Do { note: None, op, state: CliState::One(state) }
}

// ---- finding the connection -------------------------------------------------

/// The ids of the connections with the name, in their order.
pub open spec fn named_ids(list: Seq<ConnectionSummary>, name: Seq<char>) -> Seq<ConnectionId>
    decreases list.len(),
{
    if list.len() == 0 {
        Seq::empty()
    } else {
        let before = named_ids(list.drop_last(), name);
        if list.last().name matches Some(own) && own@ == name {
            before.push(list.last().id)
        } else {
            before
        }
    }
}

/// How a command on one connection begins: with the question whether it is given
/// by its id.
pub open spec fn one_begun(wanted: String, task: Task) -> CliTurn {
    next(CliOp::ParseId { text: wanted }, OneState::Parsing { wanted, task })
}

/// Starts to find the connection that is meant.
pub fn resolve_id(wanted: String, task: Task) -> (turn: CliTurn)
    ensures
        turn == one_begun(wanted, task),
        steps::ready(turn),
{
    let text = wanted.clone();
    go_on(CliOp::ParseId { text }, OneState::Parsing { wanted, task })
}

/// The connections of a scope are to be looked through for the name.
pub open spec fn listing(scope: ConnectionScope) -> CliOp {
    CliOp::Client(ClientOp::List { scope, autostart: true })
}

/// What the daemon is asked for a task.
pub open spec fn request(id: ConnectionId, task: Task) -> CliOp {
    CliOp::Client(
        match task {
            Task::Remove => ClientOp::Remove { id },
            Task::Connect { debug } => ClientOp::Connect { id, debug, reason: ConnectReason::User },
            Task::Disconnect => ClientOp::Disconnect {
                id,
                reason: DisconnectReason::User,
                autostart: true,
            },
            Task::SetMode { start_mode } => ClientOp::SetMode { id, start_mode },
            Task::Get => ClientOp::Get { id },
        },
    )
}

/// The connection is known, and the daemon is asked.
pub open spec fn acting(id: ConnectionId, task: Task) -> CliTurn {
    next(request(id, task), OneState::Acting { id, task })
}

/// What the connections with the name mean: exactly one is the one that is meant.
pub open spec fn resolved(ids: Seq<ConnectionId>, wanted: String, task: Task) -> CliTurn {
    if ids.len() == 0 {
        CliTurn::Failed { note: None, error: CliError::NoSuchConnection { name: wanted } }
    } else if ids.len() == 1 {
        acting(ids[0], task)
    } else {
        CliTurn::Failed {
            note: None,
            error: CliError::Ambiguous { name: wanted, matches: ids.len() as usize },
        }
    }
}

/// What a task reports when the daemon carried it out.
pub open spec fn carried_out(id: ConnectionId, task: Task) -> CliReport {
    match task {
        Task::Remove => CliReport::Removed { id },
        Task::Connect { debug: _ } => CliReport::Connected { id },
        Task::Disconnect => CliReport::Disconnected { id },
        Task::SetMode { start_mode } => CliReport::ModeSet { id, start_mode },
        Task::Get => CliReport::Said,
    }
}

/// How a command on one connection goes on from an answer. An id is taken as it
/// is. A name is looked for among the user's own connections first, and among the
/// global ones only if it is not there: a global connection of the same name does
/// not make it ambiguous.
pub open spec fn one_stepped(state: OneState, reply: CliReply, turn: CliTurn) -> bool {
    match (state, reply) {
        (OneState::Parsing { wanted: _, task }, CliReply::Id(Some(id))) => turn == acting(id, task),
        (OneState::Parsing { wanted, task }, CliReply::Id(None)) => turn == next(
            listing(ConnectionScope::Mine),
            OneState::ListingMine { wanted, task },
        ),
        (OneState::ListingMine { wanted, task }, CliReply::Client(ClientReply::Listed(Ok(list)))) => {
            let ids = named_ids(list@, wanted@);
            if ids.len() == 0 {
                turn == next(
                    listing(ConnectionScope::Global),
                    OneState::ListingGlobal { wanted, task },
                )
            } else {
                turn == resolved(ids, wanted, task)
            }
        },
        (
            OneState::ListingGlobal { wanted, task },
            CliReply::Client(ClientReply::Listed(Ok(list))),
        ) => turn == resolved(named_ids(list@, wanted@), wanted, task),
        (OneState::ListingMine { .. }, CliReply::Client(ClientReply::Listed(Err(cause)))) => turn
            == CliTurn::Failed { note: None, error: CliError::Daemon { cause } },
        (OneState::ListingGlobal { .. }, CliReply::Client(ClientReply::Listed(Err(cause)))) => turn
            == CliTurn::Failed { note: None, error: CliError::Daemon { cause } },
        (OneState::Acting { id, task }, CliReply::Client(ClientReply::Done(Ok(_)))) => turn
            == CliTurn::Done { note: None, report: carried_out(id, task) },
        (OneState::Acting { .. }, CliReply::Client(ClientReply::Done(Err(cause)))) => turn
            == CliTurn::Failed { note: None, error: CliError::Daemon { cause } },
        (OneState::Acting { .. }, CliReply::Client(ClientReply::Shown(Ok(conn)))) => turn
            == CliTurn::Done { note: None, report: CliReport::Shown(conn) },
        (OneState::Acting { .. }, CliReply::Client(ClientReply::Shown(Err(cause)))) => turn
            == CliTurn::Failed { note: None, error: CliError::Daemon { cause } },
        _ => false,
    }
}

fn pick_named(list: &Vec<ConnectionSummary>, name: &String) -> (ids: Vec<ConnectionId>)
    ensures
        ids@ == named_ids(list@, name@),
{
    let mut ids: Vec<ConnectionId> = Vec::new();
    let mut i: usize = 0;
    while i < list.len()
        invariant
            i <= list@.len(),
            ids@ == named_ids(list@.take(i as int), name@),
        decreases list@.len() - i,
    {
        let conn = &list[i];
        assert(list@.take(i + 1).drop_last() =~= list@.take(i as int));
        let same_name: bool = match &conn.name {
            Some(own) => *own == *name,
            None => false,
        };
        if same_name {
            ids.push(conn.id.copy());
        }
        i += 1;
    }
    assert(list@.take(i as int) =~= list@);
    ids
}

fn act(id: ConnectionId, task: Task) -> (turn: CliTurn)
    ensures
        turn == acting(id, task),
        steps::ready(turn),
{
    let asked = id.copy();
    let op = match task {
        Task::Remove => ClientOp::Remove { id: asked },
        Task::Connect { debug } => ClientOp::Connect {
            id: asked,
            debug,
            reason: ConnectReason::User,
        },
        Task::Disconnect => ClientOp::Disconnect {
            id: asked,
            reason: DisconnectReason::User,
            autostart: true,
        },
        Task::SetMode { start_mode } => ClientOp::SetMode { id: asked, start_mode },
        Task::Get => ClientOp::Get { id: asked },
    };
    go_on(CliOp::Client(op), OneState::Acting { id, task })
}

fn settle(ids: Vec<ConnectionId>, wanted: String, task: Task) -> (turn: CliTurn)
    ensures
        turn == resolved(ids@, wanted, task),
        steps::ready(turn),
{
    if ids.len() == 0 {
        return CliTurn::Failed {
            note: None,
            error: CliError::NoSuchConnection { name: wanted },
        };
    }
    if ids.len() == 1 {
        return act(ids[0].copy(), task);
    }
    let matches: usize = ids.len();
    CliTurn::Failed { note: None, error: CliError::Ambiguous { name: wanted, matches } }
}

fn fail(cause: String) -> (turn: CliTurn)
    ensures
        turn == (CliTurn::Failed { note: None, error: CliError::Daemon { cause } }),
{
    CliTurn::Failed { note: None, error: CliError::Daemon { cause } }
}

fn report(id: ConnectionId, task: Task) -> (result: CliReport)
    ensures
        result == carried_out(id, task),
{
    match task {
        Task::Remove => CliReport::Removed { id },
        Task::Connect { debug: _ } => CliReport::Connected { id },
        Task::Disconnect => CliReport::Disconnected { id },
        Task::SetMode { start_mode } => CliReport::ModeSet { id, start_mode },
        Task::Get => CliReport::Said,
    }
}

/// Goes on with a command on one connection from an answer.
pub fn resume_one(state: OneState, reply: CliReply) -> (turn: CliTurn)
    requires
        state.accepts(reply),
    ensures
        one_stepped(state, reply, turn),
        steps::ready(turn),
{
    match (state, reply) {
        (OneState::Parsing { wanted, task }, CliReply::Id(parsed)) => match parsed {
            Some(id) => act(id, task),
            None => go_on(
                CliOp::Client(ClientOp::List { scope: ConnectionScope::Mine, autostart: true }),
                OneState::ListingMine { wanted, task },
            ),
        },
        (OneState::ListingMine { wanted, task }, CliReply::Client(ClientReply::Listed(result))) => {
            match result {
                Ok(list) => {
                    let ids = pick_named(&list, &wanted);
                    if ids.len() == 0 {
                        return go_on(
                            CliOp::Client(
                                ClientOp::List { scope: ConnectionScope::Global, autostart: true },
                            ),
                            OneState::ListingGlobal { wanted, task },
                        );
                    }
                    settle(ids, wanted, task)
                },
                Err(cause) => fail(cause),
            }
        },
        (
            OneState::ListingGlobal { wanted, task },
            CliReply::Client(ClientReply::Listed(result)),
        ) => match result {
            Ok(list) => {
                let ids = pick_named(&list, &wanted);
                settle(ids, wanted, task)
            },
            Err(cause) => fail(cause),
        },
        (OneState::Acting { id, task }, CliReply::Client(ClientReply::Done(result))) => {
            match result {
                Ok(_) => CliTurn::Done { note: None, report: report(id, task) },
                Err(cause) => fail(cause),
            }
        },
        (OneState::Acting { .. }, CliReply::Client(ClientReply::Shown(result))) => match result {
            Ok(conn) => CliTurn::Done { note: None, report: CliReport::Shown(conn) },
            Err(cause) => fail(cause),
        },
        (_, _) => vstd::pervasive::unreached(),
    }
}

// ---- the commands -----------------------------------------------------------

/// Starts to remove a connection.
pub fn cmd_remove(id: String) -> (turn: CliTurn)
    ensures
        turn == one_begun(id, Task::Remove),
        steps::ready(turn),
{
    resolve_id(id, Task::Remove)
}

/// Starts to bring a connection up.
pub fn cmd_connect(id: String, debug: bool) -> (turn: CliTurn)
    ensures
        turn == one_begun(id, Task::Connect { debug }),
        steps::ready(turn),
{
    resolve_id(id, Task::Connect { debug })
}

/// Starts to set the start mode of a connection.
pub fn cmd_mode(id: String, start_mode: ConnectionStartMode) -> (turn: CliTurn)
    ensures
        turn == one_begun(id, Task::SetMode { start_mode }),
        steps::ready(turn),
{
    resolve_id(id, Task::SetMode { start_mode })
}

/// Starts to show a connection.
pub fn cmd_get(id: String) -> (turn: CliTurn)
    ensures
        turn == one_begun(id, Task::Get),
        steps::ready(turn),
{
    resolve_id(id, Task::Get)
}

} // verus!
