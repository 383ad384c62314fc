//! That the daemon is asked for what the command line said, and that the user is
//! told what came of it.

use vstd::prelude::*;

use crate::cli::{ConnectionCommand, StartModeArg};
use crate::client::{ClientOp, ClientReply};
use crate::connection_cli;
use crate::connection_cli::add;
use crate::connection_cli::add::{AddArgs, AddState};
use crate::connection_cli::laws;
use crate::connection_cli::one;
use crate::connection_cli::steps::{
    CliError, CliNote, CliOp, CliReply, CliReport, CliState, CliTurn,
};
use crate::connection_cli::CliStart;
use crate::privileged_api::{
    ConnectReason, ConnectionId, ConnectionScope, ConnectionStartMode, ConnectionSummary,
    DisconnectReason,
};

verus! {

/// The course is one that the command can take.
pub open spec fn command_course(
    euid: u32,
    uid: u32,
    command: ConnectionCommand,
    replies: Seq<CliReply>,
    turns: Seq<CliTurn>,
) -> bool {
    connection_cli::taken_up(euid, uid, command) matches CliStart::Connection(first)
        && laws::course(first, replies, turns)
}

/// The start mode that an argument means.
pub open spec fn meant_mode(mode: StartModeArg) -> ConnectionStartMode {
    match mode {
        StartModeArg::Manual => ConnectionStartMode::Manual,
        StartModeArg::Automatic => ConnectionStartMode::Automatic,
    }
}

/// The command fails with the daemon's own words.
pub open spec fn fails_with(turn: CliTurn, cause: String) -> bool {
    turn == CliTurn::Failed { note: None, error: CliError::Daemon { cause } }
}

// ---- adding -----------------------------------------------------------------

/// An addition reads the file that it was given, and asks the daemon for exactly
/// what the command line said: the file's text and every option. Where the caller
/// does not insist, the answer ends it.
pub proof fn addition_asks_for_what_was_said(
    euid: u32,
    uid: u32,
    file: String,
    global: bool,
    name: Option<String>,
    mtu: Option<u16>,
    force: bool,
    start_mode: StartModeArg,
    replies: Seq<CliReply>,
    turns: Seq<CliTurn>,
)
    requires
        force ==> name is Some,
        command_course(
            euid,
            uid,
            ConnectionCommand::Add { file, global, name, mtu, force, start_mode },
            replies,
            turns,
        ),
    ensures
        laws::asked(turns[0]) == Some(CliOp::ReadFile { path: file }),
        replies.len() > 0 ==> match replies[0] {
            CliReply::Text(Ok(conf_text)) => laws::asked(turns[1]) == Some(
                CliOp::Client(
                    ClientOp::Add {
                        conf_text,
                        global,
                        start_mode: meant_mode(start_mode),
                        name,
                        mtu,
                        force,
                    },
                ),
            ),
            CliReply::Text(Err(cause)) => turns[1] == (CliTurn::Failed {
                note: None,
                error: CliError::FileUnreadable { path: file, cause },
            }),
            _ => false,
        },
        replies.len() > 1 ==> match replies[1] {
            CliReply::Client(ClientReply::Added(Ok(id))) => if force {
                &&& laws::asked(turns[2]) == Some(
                    CliOp::Client(
                        ClientOp::List {
                            scope: if global {
                                ConnectionScope::Global
                            } else {
                                ConnectionScope::Mine
                            },
                            autostart: true,
                        },
                    ),
                )
                &&& turns[2]->Do_note == Some(CliNote::Added { id })
            } else {
                turns[2] == CliTurn::Done {
                    note: Some(CliNote::Added { id }),
                    report: CliReport::Said,
                }
            },
            CliReply::Client(ClientReply::Added(Err(cause))) => fails_with(turns[2], cause),
            _ => false,
        },
{
    if replies.len() > 0 {
        assert(laws::went_on(turns[0], replies[0], turns[1]));
    }
    if replies.len() > 1 {
        assert(laws::went_on(turns[1], replies[1], turns[2]));
    }
}

/// The connection has the name, and is another one than `id`.
pub open spec fn in_the_way(conn: ConnectionSummary, id: ConnectionId, name: Seq<char>) -> bool {
    conn.id.text@ != id.text@ && conn.name is Some && conn.name->0@ == name
}

/// Before step `k`, the daemon removed the connection `id`.
pub open spec fn removed(
    replies: Seq<CliReply>,
    turns: Seq<CliTurn>,
    k: int,
    id: ConnectionId,
) -> bool {
    exists|j: int|
        0 <= j < k && laws::asked(#[trigger] turns[j]) == Some(
            CliOp::Client(ClientOp::Remove { id }),
        ) && replies[j] matches CliReply::Client(ClientReply::Done(Ok(_)))
}

spec fn clearing_on_course(
    args: AddArgs,
    replies: Seq<CliReply>,
    turns: Seq<CliTurn>,
    k: int,
) -> bool {
    match turns[k] {
        CliTurn::Do {
            note: _,
            op: _,
            state: CliState::Add(AddState::RemovingStale { id: _, name: _, stale, at }),
        } => forall|i: int| 0 <= i < at ==> removed(replies, turns, k, #[trigger] stale@[i]),
        CliTurn::Done { note: _, report: _ } => k > 2 ==> {
            &&& replies[1] matches CliReply::Client(ClientReply::Added(Ok(id)))
            &&& replies[2] matches CliReply::Client(ClientReply::Listed(Ok(list)))
            &&& forall|i: int|
                0 <= i < add::stale_ids(list@, id, args.name->0@).len() ==> removed(
                    replies,
                    turns,
                    k,
                    #[trigger] add::stale_ids(list@, id, args.name->0@)[i],
                )
        },
        _ => true,
    }
}

proof fn lemma_removed_later(
    replies: Seq<CliReply>,
    turns: Seq<CliTurn>,
    k: int,
    id: ConnectionId,
)
    requires
        removed(replies, turns, k, id),
    ensures
        removed(replies, turns, k + 1, id),
{
    let j = choose|j: int|
        0 <= j < k && laws::asked(#[trigger] turns[j]) == Some(
            CliOp::Client(ClientOp::Remove { id }),
        ) && replies[j] matches CliReply::Client(ClientReply::Done(Ok(_)));
    assert(laws::asked(turns[j]) == Some(CliOp::Client(ClientOp::Remove { id })));
}

proof fn lemma_clearing(args: AddArgs, replies: Seq<CliReply>, turns: Seq<CliTurn>, k: int)
    requires
        args.force,
        args.name is Some,
        laws::course(add::add_begun(args), replies, turns),
        0 <= k < turns.len(),
    ensures
        clearing_on_course(args, replies, turns, k),
    decreases k,
{
    laws::lemma_add(args, replies, turns, k);
    if k > 0 {
        let p = k - 1;
        laws::lemma_add(args, replies, turns, p);
        lemma_clearing(args, replies, turns, p);
        assert(laws::went_on(turns[p], replies[p], turns[p + 1]));
        if let CliTurn::Do {
            note: _,
            op: _,
            state: CliState::Add(AddState::RemovingStale { id: _, name: _, stale, at }),
        } = turns[p] {
            if replies[p] matches CliReply::Client(ClientReply::Done(Ok(_))) {
                assert forall|i: int| 0 <= i <= at implies removed(
                    replies,
                    turns,
                    k,
                    #[trigger] stale@[i],
                ) by {
                    if i < at {
                        lemma_removed_later(replies, turns, p, stale@[i]);
                    } else {
                        assert(laws::asked(turns[p]) == Some(
                            CliOp::Client(ClientOp::Remove { id: stale@[i] }),
                        ));
                    }
                }
            }
        }
    }
}

/// An addition that insists ends well only when every connection that stood in the
/// way of the name was removed: each that was listed with the name and is not the
/// one just added.
pub proof fn forced_addition_clears_the_name(
    euid: u32,
    uid: u32,
    file: String,
    global: bool,
    name: String,
    mtu: Option<u16>,
    start_mode: StartModeArg,
    replies: Seq<CliReply>,
    turns: Seq<CliTurn>,
    k: int,
    i: int,
)
    requires
        command_course(
            euid,
            uid,
            ConnectionCommand::Add { file, global, name: Some(name), mtu, force: true, start_mode },
            replies,
            turns,
        ),
        0 <= k < turns.len(),
        turns[k] is Done,
    ensures
        k > 2,
        replies[1] matches CliReply::Client(ClientReply::Added(Ok(id))) && (replies[2] matches
            CliReply::Client(ClientReply::Listed(Ok(list))) && (0 <= i < list@.len() && in_the_way(
            list@[i],
            id,
            name@,
        ) ==> removed(replies, turns, k, list@[i].id))),
{
    let args = AddArgs {
        file,
        global,
        name: Some(name),
        mtu,
        force: true,
        start_mode: meant_mode(start_mode),
    };
    if k > 0 {
        assert(laws::went_on(turns[0], replies[0], turns[1]));
    }
    if k > 1 {
        assert(laws::went_on(turns[1], replies[1], turns[2]));
    }
    if k > 2 {
        assert(laws::went_on(turns[2], replies[2], turns[3]));
    }
    lemma_clearing(args, replies, turns, k);
    if let CliReply::Client(ClientReply::Added(Ok(id))) = replies[1] {
        if let CliReply::Client(ClientReply::Listed(Ok(list))) = replies[2] {
            laws::only_the_superseded_are_stale(list@, id, name@);
            if 0 <= i < list@.len() && in_the_way(list@[i], id, name@) {
                let stale = add::stale_ids(list@, id, name@);
                assert(add::superseded(list@[i], id, name@));
                let at = choose|at: int| 0 <= at < stale.len() && stale[at] == list@[i].id;
                assert(removed(replies, turns, k, stale[at]));
            }
        }
    }
}

/// What an addition removes stood in the way of a name that the caller insists on:
/// it was listed with that name, and is not the one just added.
pub proof fn addition_removes_only_what_is_in_the_way(
    euid: u32,
    uid: u32,
    file: String,
    global: bool,
    name: Option<String>,
    mtu: Option<u16>,
    force: bool,
    start_mode: StartModeArg,
    replies: Seq<CliReply>,
    turns: Seq<CliTurn>,
    k: int,
    gone: ConnectionId,
)
    requires
        force ==> name is Some,
        command_course(
            euid,
            uid,
            ConnectionCommand::Add { file, global, name, mtu, force, start_mode },
            replies,
            turns,
        ),
        0 <= k < turns.len(),
        laws::asked(turns[k]) == Some(CliOp::Client(ClientOp::Remove { id: gone })),
    ensures
        force,
        replies[1] matches CliReply::Client(ClientReply::Added(Ok(id))) && (replies[2] matches
            CliReply::Client(ClientReply::Listed(Ok(list))) && exists|i: int|
            0 <= i < list@.len() && in_the_way(#[trigger] list@[i], id, name->0@) && list@[i].id
                == gone),
{
    let args = AddArgs { file, global, name, mtu, force, start_mode: meant_mode(start_mode) };
    laws::additions_remove_only_the_superseded(args, replies, turns, k, gone);
    if let CliReply::Client(ClientReply::Added(Ok(id))) = replies[1] {
        if let CliReply::Client(ClientReply::Listed(Ok(list))) = replies[2] {
            let i = choose|i: int|
                0 <= i < list@.len() && add::superseded(#[trigger] list@[i], id, name->0@)
                    && list@[i].id == gone;
            assert(in_the_way(list@[i], id, name->0@));
        }
    }
}

// ---- one connection ---------------------------------------------------------

/// What a command on one connection was given to find it by.
pub open spec fn given(command: ConnectionCommand) -> Option<String> {
    match command {
        ConnectionCommand::Remove { id } => Some(id),
        ConnectionCommand::Connect { id, debug: _ } => Some(id),
        ConnectionCommand::Disconnect { id, all } => if all {
            None
        } else {
            id
        },
        ConnectionCommand::Mode { id, start_mode: _ } => Some(id),
        ConnectionCommand::Get { id } => Some(id),
        _ => None,
    }
}

/// `op` is what a command on one connection is about, done to `id`.
pub open spec fn is_about(op: CliOp, command: ConnectionCommand, id: ConnectionId) -> bool {
    op matches CliOp::Client(op) && match command {
        ConnectionCommand::Remove { id: _ } => op == (ClientOp::Remove { id }),
        ConnectionCommand::Connect { id: _, debug } => op == (ClientOp::Connect {
            id,
            debug,
            reason: ConnectReason::User,
        }),
        ConnectionCommand::Disconnect { id: _, all: _ } => op == (ClientOp::Disconnect {
            id,
            reason: DisconnectReason::User,
            autostart: true,
        }),
        ConnectionCommand::Mode { id: _, start_mode } => op == (ClientOp::SetMode {
            id,
            start_mode: meant_mode(start_mode),
        }),
        ConnectionCommand::Get { id: _ } => op == (ClientOp::Get { id }),
        _ => false,
    }
}

/// The listed connections that have the name.
pub open spec fn with_name(
    list: Seq<ConnectionSummary>,
    name: Seq<char>,
) -> Seq<ConnectionSummary> {
    list.filter(|conn: ConnectionSummary| conn.name is Some && conn.name->0@ == name)
}

proof fn lemma_named(list: Seq<ConnectionSummary>, name: Seq<char>)
    ensures
        one::named_ids(list, name).len() == with_name(list, name).len(),
        forall|i: int|
            0 <= i < with_name(list, name).len() ==> #[trigger] one::named_ids(list, name)[i]
                == with_name(list, name)[i].id,
    decreases list.len(),
{
    reveal(Seq::filter);
    if list.len() > 0 {
        lemma_named(list.drop_last(), name);
    }
}

/// Listing the connections of a scope.
pub open spec fn lists_scope(op: Option<CliOp>, scope: ConnectionScope) -> bool {
    op == Some(CliOp::Client(ClientOp::List { scope, autostart: true }))
}

/// A command on one connection finds it by its id or by its name. A text that is an
/// id is taken for that. Otherwise it is a name, and is looked for among the
/// user's own connections, and only where none of them has it, among the global
/// ones: one that has it is the one, several are ambiguous, and none is an error.
/// What is then asked of the daemon is what the command is about.
pub proof fn command_finds_its_connection(
    euid: u32,
    uid: u32,
    command: ConnectionCommand,
    wanted: String,
    replies: Seq<CliReply>,
    turns: Seq<CliTurn>,
)
    requires
        given(command) == Some(wanted),
        command_course(euid, uid, command, replies, turns),
    ensures
        laws::asked(turns[0]) == Some(CliOp::ParseId { text: wanted }),
        replies.len() > 0 ==> match replies[0] {
            CliReply::Id(Some(id)) => laws::asked(turns[1]) matches Some(op) && is_about(
                op,
                command,
                id,
            ),
            CliReply::Id(None) => lists_scope(laws::asked(turns[1]), ConnectionScope::Mine),
            _ => false,
        },
        replies.len() > 1 && replies[0] == CliReply::Id(None) ==> match replies[1] {
            CliReply::Client(ClientReply::Listed(Ok(own))) => {
                let found = with_name(own@, wanted@);
                &&& found.len() == 0 ==> lists_scope(
                    laws::asked(turns[2]),
                    ConnectionScope::Global,
                )
                &&& found.len() == 1 ==> (laws::asked(turns[2]) matches Some(op) && is_about(
                    op,
                    command,
                    found[0].id,
                ))
                &&& found.len() > 1 ==> turns[2] == (CliTurn::Failed {
                    note: None,
                    error: CliError::Ambiguous { name: wanted, matches: found.len() as usize },
                })
            },
            CliReply::Client(ClientReply::Listed(Err(cause))) => fails_with(turns[2], cause),
            _ => false,
        },
        replies.len() > 2 && replies[0] == CliReply::Id(None) && lists_scope(
            laws::asked(turns[2]),
            ConnectionScope::Global,
        ) ==> match replies[2] {
            CliReply::Client(ClientReply::Listed(Ok(global))) => {
                let found = with_name(global@, wanted@);
                &&& found.len() == 0 ==> turns[3] == (CliTurn::Failed {
                    note: None,
                    error: CliError::NoSuchConnection { name: wanted },
                })
                &&& found.len() == 1 ==> (laws::asked(turns[3]) matches Some(op) && is_about(
                    op,
                    command,
                    found[0].id,
                ))
                &&& found.len() > 1 ==> turns[3] == (CliTurn::Failed {
                    note: None,
                    error: CliError::Ambiguous { name: wanted, matches: found.len() as usize },
                })
            },
            CliReply::Client(ClientReply::Listed(Err(cause))) => fails_with(turns[3], cause),
            _ => false,
        },
{
    if replies.len() > 0 {
        assert(laws::went_on(turns[0], replies[0], turns[1]));
    }
    if replies.len() > 1 {
        assert(laws::went_on(turns[1], replies[1], turns[2]));
        if let CliReply::Client(ClientReply::Listed(Ok(own))) = replies[1] {
            lemma_named(own@, wanted@);
        }
    }
    if replies.len() > 2 {
        assert(laws::went_on(turns[2], replies[2], turns[3]));
        if let CliReply::Client(ClientReply::Listed(Ok(global))) = replies[2] {
            lemma_named(global@, wanted@);
        }
    }
}

/// A command on one connection reports what the daemon did, once it did it: that the
/// very connection was removed, brought up, taken down or given the start mode, or
/// what it looks like. Where the daemon fails, so does the command.
pub proof fn command_reports_what_was_done(
    euid: u32,
    uid: u32,
    command: ConnectionCommand,
    wanted: String,
    replies: Seq<CliReply>,
    turns: Seq<CliTurn>,
    k: int,
    report: CliReport,
)
    requires
        given(command) == Some(wanted),
        command_course(euid, uid, command, replies, turns),
        0 <= k < turns.len(),
        turns[k] matches CliTurn::Done { note: _, report: said } && said == report,
    ensures
        k > 0,
        turns[k]->Done_note is None,
        exists|id: ConnectionId|
            #[trigger] is_about(laws::asked(turns[k - 1])->0, command, id) && laws::asked(
                turns[k - 1],
            ) is Some && match command {
                ConnectionCommand::Remove { id: _ } => (replies[k - 1] matches CliReply::Client(
                    ClientReply::Done(Ok(_)),
                )) && report == (CliReport::Removed { id }),
                ConnectionCommand::Connect { id: _, debug: _ } => (replies[k - 1] matches
                    CliReply::Client(ClientReply::Done(Ok(_)))) && report == (
                CliReport::Connected { id }),
                ConnectionCommand::Disconnect { id: _, all: _ } => (replies[k - 1] matches
                    CliReply::Client(ClientReply::Done(Ok(_)))) && report == (
                CliReport::Disconnected { id }),
                ConnectionCommand::Mode { id: _, start_mode } => (replies[k - 1] matches
                    CliReply::Client(ClientReply::Done(Ok(_)))) && report == (CliReport::ModeSet {
                    id,
                    start_mode: meant_mode(start_mode),
                }),
                _ => report matches CliReport::Shown(conn) && replies[k - 1] == CliReply::Client(
                    ClientReply::Shown(Ok(conn)),
                ),
            },
{
    let task = lemma_task(euid, uid, command, wanted);
    laws::lemma_one(wanted, task, replies, turns, k);
    if k > 0 {
        let p = k - 1;
        laws::lemma_one(wanted, task, replies, turns, p);
        assert(laws::went_on(turns[p], replies[p], turns[p + 1]));
        if let CliTurn::Do {
            note: _,
            op,
            state: CliState::One(one::OneState::Acting { id, task: _ }),
        } = turns[p] {
            assert(op == laws::asked(turns[k - 1])->0);
            assert(is_about(laws::asked(turns[k - 1])->0, command, id));
        }
    }
}

proof fn lemma_task(euid: u32, uid: u32, command: ConnectionCommand, wanted: String) -> (task:
    one::Task)
    requires
        given(command) == Some(wanted),
    ensures
        connection_cli::taken_up(euid, uid, command) == CliStart::Connection(
            one::one_begun(wanted, task),
        ),
        task == (match command {
            ConnectionCommand::Remove { id: _ } => one::Task::Remove,
            ConnectionCommand::Connect { id: _, debug } => one::Task::Connect { debug },
            ConnectionCommand::Disconnect { id: _, all: _ } => one::Task::Disconnect,
            ConnectionCommand::Mode { id: _, start_mode } => one::Task::SetMode {
                start_mode: meant_mode(start_mode),
            },
            _ => one::Task::Get,
        }),
{
    match command {
        ConnectionCommand::Remove { id: _ } => one::Task::Remove,
        ConnectionCommand::Connect { id: _, debug } => one::Task::Connect { debug },
        ConnectionCommand::Disconnect { id: _, all: _ } => one::Task::Disconnect,
        ConnectionCommand::Mode { id: _, start_mode } => one::Task::SetMode {
            start_mode: meant_mode(start_mode),
        },
        _ => one::Task::Get,
    }
}

/// Where the daemon fails to do what a command on one connection is about, the
/// command fails with the daemon's words.
pub proof fn command_fails_with_the_daemon(
    euid: u32,
    uid: u32,
    command: ConnectionCommand,
    wanted: String,
    replies: Seq<CliReply>,
    turns: Seq<CliTurn>,
    k: int,
    cause: String,
)
    requires
        given(command) == Some(wanted),
        command_course(euid, uid, command, replies, turns),
        0 <= k < replies.len(),
        replies[k] == CliReply::Client(ClientReply::Done(Err(cause))) || replies[k]
            == CliReply::Client(ClientReply::Shown(Err(cause))),
    ensures
        fails_with(turns[k + 1], cause),
{
    let task = lemma_task(euid, uid, command, wanted);
    laws::lemma_one(wanted, task, replies, turns, k);
    assert(laws::went_on(turns[k], replies[k], turns[k + 1]));
}

// ---- many connections -------------------------------------------------------

/// A listing asks for the scope that the command line names, and shows what the
/// daemon lists.
pub proof fn listing_shows_what_was_listed(
    euid: u32,
    uid: u32,
    all: bool,
    global: bool,
    replies: Seq<CliReply>,
    turns: Seq<CliTurn>,
)
    requires
        command_course(euid, uid, ConnectionCommand::List { all, global }, replies, turns),
    ensures
        all ==> lists_scope(laws::asked(turns[0]), ConnectionScope::All),
        !all && global ==> lists_scope(laws::asked(turns[0]), ConnectionScope::Global),
        !all && !global ==> lists_scope(laws::asked(turns[0]), ConnectionScope::Mine),
        replies.len() > 0 ==> match replies[0] {
            CliReply::Client(ClientReply::Listed(Ok(list))) => turns[1] == (CliTurn::Done {
                note: None,
                report: CliReport::Listed(list),
            }),
            CliReply::Client(ClientReply::Listed(Err(cause))) => fails_with(turns[1], cause),
            _ => false,
        },
{
    if replies.len() > 0 {
        assert(laws::went_on(turns[0], replies[0], turns[1]));
    }
}

/// The listed connections that are up.
pub open spec fn ups(list: Seq<ConnectionSummary>) -> Seq<ConnectionSummary> {
    list.filter(|conn: ConnectionSummary| conn.connected)
}

proof fn lemma_ups(list: Seq<ConnectionSummary>)
    ensures
        crate::client::connected_ids(list).len() == ups(list).len(),
        forall|i: int|
            0 <= i < ups(list).len() ==> #[trigger] crate::client::connected_ids(list)[i] == ups(
                list,
            )[i].id,
    decreases list.len(),
{
    reveal(Seq::filter);
    if list.len() > 0 {
        lemma_ups(list.drop_last());
    }
}

/// Taking all connections down lists the user's own, and asks for each that is up,
/// in their order, to be taken down for the user. What came of each is said next.
/// When none is up, that is all there is to say.
pub proof fn disconnecting_all_takes_each_down(
    euid: u32,
    uid: u32,
    id: Option<String>,
    replies: Seq<CliReply>,
    turns: Seq<CliTurn>,
    list: Vec<ConnectionSummary>,
    n: int,
)
    requires
        command_course(
            euid,
            uid,
            ConnectionCommand::Disconnect { id, all: true },
            replies,
            turns,
        ),
        replies.len() > 0,
        replies[0] == CliReply::Client(ClientReply::Listed(Ok(list))),
    ensures
        lists_scope(laws::asked(turns[0]), ConnectionScope::Mine),
        ups(list@).len() == 0 ==> turns[1] == (CliTurn::Done {
            note: None,
            report: CliReport::NotConnected,
        }),
        0 <= n < ups(list@).len() && n < replies.len() ==> laws::asked(turns[n + 1]) == Some(
            CliOp::Client(
                ClientOp::Disconnect {
                    id: ups(list@)[n].id,
                    reason: DisconnectReason::User,
                    autostart: true,
                },
            ),
        ),
        0 <= n < ups(list@).len() && n + 1 < replies.len() ==> match replies[n + 1] {
            CliReply::Client(ClientReply::Done(Ok(_))) => said(turns[n + 2]) == Some(
                CliNote::Disconnected { id: ups(list@)[n].id },
            ),
            CliReply::Client(ClientReply::Done(Err(cause))) => said(turns[n + 2]) == Some(
                CliNote::DisconnectFailed { id: ups(list@)[n].id, cause },
            ),
            _ => false,
        },
        0 < n == ups(list@).len() && n < replies.len() ==> if laws::one_failed(replies, n) {
            turns[n + 1] matches CliTurn::Failed { note: _, error } && error
                == CliError::DisconnectsFailed
        } else {
            turns[n + 1] matches CliTurn::Done { note: _, report } && report == CliReport::Said
        },
{
    assert(laws::went_on(turns[0], replies[0], turns[1]));
    lemma_ups(list@);
    if 0 <= n <= ups(list@).len() && n < replies.len() && ups(list@).len() > 0 {
        laws::lemma_all(replies, turns, list, n);
        assert(laws::went_on(turns[n], replies[n], turns[n + 1]));
        if n > 0 {
            laws::lemma_all(replies, turns, list, n - 1);
        }
        if n + 1 < replies.len() {
            assert(laws::went_on(turns[n + 1], replies[n + 1], turns[n + 2]));
        }
    }
}

/// What a turn says first.
pub open spec fn said(turn: CliTurn) -> Option<CliNote> {
    match turn {
        CliTurn::Do { note, op: _, state: _ } => note,
        CliTurn::Done { note, report: _ } => note,
        CliTurn::Failed { note, error: _ } => note,
    }
}

} // verus!
