//! What the agent and the commands on it do, operation by operation.

use vstd::prelude::*;

use crate::cli::AgentCommand;
use crate::client::{ClientOp, ClientReply};
use crate::privileged_api::{
    ConnectReason, ConnectionScope, ConnectionStartMode, ConnectionSummary, DisconnectReason,
};
use crate::session_agent;
use crate::session_agent::candidates;
use crate::session_agent::install::AgentInstallState;
use crate::session_agent::laws;
use crate::session_agent::plist;
use crate::session_agent::run::RunState;
use crate::session_agent::steps;
use crate::session_agent::steps::{
    AgentError, AgentNote, AgentOp, AgentReply, AgentReport, AgentState, AgentTurn,
};
use crate::text;

verus! {

// ---- the commands -----------------------------------------------------------

/// The agent belongs to a user: root can neither install nor remove it.
pub proof fn root_has_no_agent(uid: u32, command: AgentCommand)
    requires
        command is Install || command is Uninstall,
    ensures
        session_agent::taken_up(0, uid, command) == AgentTurn::Failed(AgentError::AsRoot),
{
}

/// Where the agent's plist stands in a home.
pub open spec fn place_in(home: Seq<char>) -> Seq<char> {
    if home.len() == 0 || home.last() == '/' {
        home + "Library/LaunchAgents/me.pansen.wgd.session-agent.plist"@
    } else {
        home + "/Library/LaunchAgents/me.pansen.wgd.session-agent.plist"@
    }
}

proof fn lemma_place(home: Seq<char>)
    ensures
        steps::plist_place(home) == place_in(home),
{
    reveal_strlit("Library/LaunchAgents");
    reveal_strlit("me.pansen.wgd.session-agent");
    reveal_strlit(".plist");
    reveal_strlit("/");
    reveal_strlit("Library/LaunchAgents/me.pansen.wgd.session-agent.plist");
    reveal_strlit("/Library/LaunchAgents/me.pansen.wgd.session-agent.plist");
    assert("Library/LaunchAgents"@ + "/"@ + ("me.pansen.wgd.session-agent"@ + ".plist"@)
        =~= "Library/LaunchAgents/me.pansen.wgd.session-agent.plist"@);
    assert("/"@ + "Library/LaunchAgents"@ + "/"@ + ("me.pansen.wgd.session-agent"@ + ".plist"@)
        =~= "/Library/LaunchAgents/me.pansen.wgd.session-agent.plist"@);
    assert(steps::plist_place(home) =~= place_in(home));
}

/// The reply says that the operation was carried out.
pub open spec fn went_well(reply: AgentReply) -> bool {
    reply matches AgentReply::Done(Ok(_))
}

/// An agent that is there already is left alone unless the caller insists; then, and
/// where there is none, the installation goes on.
pub proof fn agent_is_replaced_only_on_demand(
    euid: u32,
    uid: u32,
    force: bool,
    replies: Seq<AgentReply>,
    turns: Seq<AgentTurn>,
    home: String,
)
    requires
        euid != 0,
        laws::course(
            session_agent::taken_up(euid, uid, AgentCommand::Install { force }),
            replies,
            turns,
        ),
        replies.len() > 2,
        replies[0] == AgentReply::Var(Ok(home)),
    ensures
        laws::asked(turns[2]) matches Some(AgentOp::FileExists { path }) && path@ == place_in(home@)
            && (replies[2] == AgentReply::Exists(true) && !force ==> turns[3]
            == AgentTurn::Failed(AgentError::AlreadyInstalled { path })),
        replies[2] == AgentReply::Exists(false) || force ==> !(turns[3] matches AgentTurn::Failed(
            AgentError::AlreadyInstalled { .. },
        )),
{
    assert(laws::went_on(turns[0], replies[0], turns[1]));
    assert(laws::went_on(turns[1], replies[1], turns[2]));
    assert(laws::went_on(turns[2], replies[2], turns[3]));
    lemma_place(home@);
}

/// An installation that says it is done is: the plist for the user's binary and home
/// was written next to its place, made readable for all and writable for the user
/// alone, and moved there; launchd was told to end the agent that ran, to accept the
/// new one, and to load it, in the session of the user.
pub proof fn agent_installation_is_complete(
    euid: u32,
    uid: u32,
    force: bool,
    replies: Seq<AgentReply>,
    turns: Seq<AgentTurn>,
    k: int,
    report: AgentReport,
)
    requires
        euid != 0,
        laws::course(
            session_agent::taken_up(euid, uid, AgentCommand::Install { force }),
            replies,
            turns,
        ),
        0 <= k < turns.len(),
        turns[k] matches AgentTurn::Done { note: _, report: said } && said == report,
    ensures
        k == 10,
        laws::asked(turns[0]) == Some(AgentOp::ReadHome),
        laws::asked(turns[1]) == Some(AgentOp::CurrentExe),
        report matches AgentReport::Installed { plist, binary } && {
            &&& replies[0] matches AgentReply::Var(Ok(home)) && plist@ == place_in(home@) && (
            laws::asked(turns[4]) matches Some(AgentOp::WriteFile { path, contents }) && {
                &&& path@ == plist@ + ".tmp"@
                &&& plist::rendering(plist::PLIST_TEMPLATE@, binary@, home@) == Ok::<
                    Seq<char>,
                    plist::AgentPlistError,
                >(contents@)
                &&& laws::asked(turns[5]) == Some(AgentOp::SetMode { path, mode: 0o644 })
                &&& laws::asked(turns[6]) == Some(AgentOp::Rename { from: path, to: plist })
            }) && (laws::asked(turns[3]) matches Some(AgentOp::CreateDir { path }) && path@ + "/"@
                + "me.pansen.wgd.session-agent.plist"@ == plist@)
            &&& replies[1] matches AgentReply::Path(Ok(exe)) && exe.exact() && binary == exe.text
            &&& laws::asked(turns[2]) == Some(AgentOp::FileExists { path: plist })
            &&& laws::asked(turns[7]) == Some(AgentOp::Bootout { uid })
            &&& laws::asked(turns[8]) == Some(AgentOp::Enable { uid })
            &&& laws::asked(turns[9]) == Some(AgentOp::Bootstrap { uid, plist })
        },
        went_well(replies[3]) && went_well(replies[4]) && went_well(replies[5]) && went_well(
            replies[6],
        ) && went_well(replies[8]) && went_well(replies[9]),
{
    lemma_step(replies, turns, k, 0);
    lemma_step(replies, turns, k, 1);
    lemma_step(replies, turns, k, 2);
    lemma_step(replies, turns, k, 3);
    lemma_step(replies, turns, k, 4);
    lemma_step(replies, turns, k, 5);
    lemma_step(replies, turns, k, 6);
    lemma_step(replies, turns, k, 7);
    lemma_step(replies, turns, k, 8);
    lemma_step(replies, turns, k, 9);
    lemma_step(replies, turns, k, 10);
    if let AgentReply::Var(Ok(home)) = replies[0] {
        lemma_place(home@);
        reveal_strlit("Library/LaunchAgents");
        reveal_strlit("me.pansen.wgd.session-agent");
        reveal_strlit("me.pansen.wgd.session-agent.plist");
        reveal_strlit(".plist");
        reveal_strlit("/");
        assert("me.pansen.wgd.session-agent"@ + ".plist"@
            =~= "me.pansen.wgd.session-agent.plist"@);
        assert(steps::agents_dir(home@).last() == 's');
    }
}

/// Up to where it says that it is done, a course goes on; and there it ends.
proof fn lemma_step(
    replies: Seq<AgentReply>,
    turns: Seq<AgentTurn>,
    k: int,
    i: int,
)
    requires
        turns.len() == replies.len() + 1,
        forall|j: int|
            0 <= j < replies.len() ==> laws::went_on(
                turns[j],
                #[trigger] replies[j],
                turns[j + 1],
            ),
        0 <= k < turns.len(),
        turns[k] is Done,
        0 <= i,
    ensures
        i < k ==> laws::went_on(turns[i], replies[i], turns[i + 1]),
        i == k ==> turns[i] is Done,
        k + 1 == turns.len(),
{
    if k < replies.len() {
        assert(laws::went_on(turns[k], replies[k], turns[k + 1]));
    }
    if i < k {
        assert(laws::went_on(turns[i], replies[i], turns[i + 1]));
    }
}

/// A removal that says it is done is: launchd was told to end the user's agent, and
/// then its plist was removed.
pub proof fn agent_removal_is_complete(
    euid: u32,
    uid: u32,
    replies: Seq<AgentReply>,
    turns: Seq<AgentTurn>,
    k: int,
    report: AgentReport,
)
    requires
        euid != 0,
        laws::course(
            session_agent::taken_up(euid, uid, AgentCommand::Uninstall),
            replies,
            turns,
        ),
        0 <= k < turns.len(),
        turns[k] matches AgentTurn::Done { note: _, report: said } && said == report,
    ensures
        k == 3,
        laws::asked(turns[0]) == Some(AgentOp::ReadHome),
        laws::asked(turns[1]) == Some(AgentOp::Bootout { uid }),
        report matches AgentReport::Uninstalled { plist } && {
            &&& replies[0] matches AgentReply::Var(Ok(home)) && plist@ == place_in(home@)
            &&& laws::asked(turns[2]) == Some(AgentOp::RemoveIfPresent { path: plist })
            &&& went_well(replies[2])
        },
{
    lemma_step(replies, turns, k, 0);
    lemma_step(replies, turns, k, 1);
    lemma_step(replies, turns, k, 2);
    lemma_step(replies, turns, k, 3);
    if let AgentReply::Var(Ok(home)) = replies[0] {
        lemma_place(home@);
    }
}

/// What is said of the agent is so: whether its plist is there, and if it is, whether
/// launchd was asked about the user's agent and has it loaded.
pub proof fn agent_status_is_so(
    euid: u32,
    uid: u32,
    replies: Seq<AgentReply>,
    turns: Seq<AgentTurn>,
    k: int,
    report: AgentReport,
)
    requires
        laws::course(
            session_agent::taken_up(euid, uid, AgentCommand::Status),
            replies,
            turns,
        ),
        0 <= k < turns.len(),
        turns[k] matches AgentTurn::Done { note: _, report: said } && said == report,
    ensures
        laws::asked(turns[0]) == Some(AgentOp::ReadHome),
        replies[0] matches AgentReply::Var(Ok(home)) && (laws::asked(turns[1]) matches Some(
            AgentOp::FileExists { path },
        ) && path@ == place_in(home@) && (match replies[1] {
            AgentReply::Exists(there) => if there {
                &&& k == 3
                &&& laws::asked(turns[2]) == Some(AgentOp::IsLoaded { uid })
                &&& report == (AgentReport::Present {
                    plist: path,
                    loaded: replies[2] == AgentReply::Status(Ok(true)),
                })
            } else {
                &&& k == 2
                &&& report is NotInstalled
            },
            _ => false,
        })),
{
    lemma_step(replies, turns, k, 0);
    lemma_step(replies, turns, k, 1);
    lemma_step(replies, turns, k, 2);
    lemma_step(replies, turns, k, 3);
    if let AgentReply::Var(Ok(home)) = replies[0] {
        lemma_place(home@);
    }
}

/// What is blamed when an operation of a command is answered by this reply, if it
/// failed.
pub open spec fn blamed(op: AgentOp, reply: AgentReply) -> Option<AgentError> {
    match reply {
        AgentReply::Var(Err(cause)) => Some(AgentError::NoHome { cause }),
        AgentReply::Path(Err(cause)) => Some(AgentError::ExeUnknown { cause }),
        AgentReply::Done(Err(cause)) => match op {
            AgentOp::CreateDir { path } => Some(AgentError::CreateFailed { path, cause }),
            AgentOp::WriteFile { path, contents: _ } => Some(
                AgentError::WriteFailed { path, cause },
            ),
            AgentOp::SetMode { path, mode: _ } => Some(AgentError::ChmodFailed { path, cause }),
            AgentOp::Rename { from: _, to } => Some(
                AgentError::InstallFailed { path: to, cause },
            ),
            AgentOp::RemoveIfPresent { path: _ } => Some(AgentError::RemoveFailed { cause }),
            AgentOp::Enable { uid: _ } => Some(AgentError::ProgramFailed { cause }),
            AgentOp::Bootstrap { uid: _, plist: _ } => Some(AgentError::ProgramFailed { cause }),
            _ => None,
        },
        _ => None,
    }
}

spec fn installing(uid: u32, force: bool, turns: Seq<AgentTurn>, k: int) -> bool {
    match turns[k] {
        AgentTurn::Do { note: _, op, state: AgentState::Install(state) } => match state {
            AgentInstallState::FindingHome { .. } => op is ReadHome,
            AgentInstallState::FindingExe { .. } => op is CurrentExe,
            AgentInstallState::Checking { job: _, force: insists } => op is FileExists && insists
                == force,
            AgentInstallState::CreatingDir { job: _, dir, contents: _ } => op == (
            AgentOp::CreateDir { path: dir }),
            AgentInstallState::Writing { job: _, draft } => op matches AgentOp::WriteFile {
                path,
                contents: _,
            } && path == draft,
            AgentInstallState::SettingMode { job: _, draft } => op matches AgentOp::SetMode {
                path,
                mode: _,
            } && path == draft,
            AgentInstallState::Renaming { job, draft } => op == (AgentOp::Rename {
                from: draft,
                to: job.plist_path,
            }),
            AgentInstallState::DroppingDraft(_) => op is RemoveFile,
            AgentInstallState::Dropping(_) => op is Bootout,
            AgentInstallState::Enabling(_) => op is Enable,
            AgentInstallState::Loading(_) => op is Bootstrap,
        },
        AgentTurn::Do { .. } => false,
        _ => true,
    }
}

proof fn lemma_installing(
    uid: u32,
    force: bool,
    replies: Seq<AgentReply>,
    turns: Seq<AgentTurn>,
    k: int,
)
    requires
        laws::course(session_agent::install::install_begun(uid, force), replies, turns),
        0 <= k < turns.len(),
    ensures
        installing(uid, force, turns, k),
        turns[k] matches AgentTurn::Do {
            note: _,
            op: _,
            state: AgentState::Install(AgentInstallState::FindingExe { force: insists, .. }),
        } ==> insists == force,
        turns[k] matches AgentTurn::Do {
            note: _,
            op: _,
            state: AgentState::Install(AgentInstallState::FindingHome { force: insists, .. }),
        } ==> insists == force,
    decreases k,
{
    if k > 0 {
        lemma_installing(uid, force, replies, turns, k - 1);
        assert(laws::went_on(turns[k - 1], replies[k - 1], turns[k]));
    }
}

/// A failure ends an installation of the agent, and it is told of. Where the plist was
/// being put together, what was written of it is removed first.
pub proof fn agent_installation_failures_are_told(
    euid: u32,
    uid: u32,
    force: bool,
    replies: Seq<AgentReply>,
    turns: Seq<AgentTurn>,
    k: int,
    op: AgentOp,
    error: AgentError,
)
    requires
        euid != 0,
        laws::course(
            session_agent::taken_up(euid, uid, AgentCommand::Install { force }),
            replies,
            turns,
        ),
        0 <= k < replies.len(),
        laws::asked(turns[k]) == Some(op),
        blamed(op, replies[k]) == Some(error),
    ensures
        match op {
            AgentOp::WriteFile { path, contents: _ } => dropped(path, error, replies, turns, k + 1),
            AgentOp::SetMode { path, mode: _ } => dropped(path, error, replies, turns, k + 1),
            AgentOp::Rename { from, to: _ } => dropped(from, error, replies, turns, k + 1),
            _ => turns[k + 1] == AgentTurn::Failed(error),
        },
{
    lemma_installing(uid, force, replies, turns, k);
    assert(laws::went_on(turns[k], replies[k], turns[k + 1]));
    if k + 1 < replies.len() {
        assert(laws::went_on(turns[k + 1], replies[k + 1], turns[k + 2]));
    }
}

/// At step `k` the file is to be removed, and then the failure is told of.
pub open spec fn dropped(
    file: String,
    error: AgentError,
    replies: Seq<AgentReply>,
    turns: Seq<AgentTurn>,
    k: int,
) -> bool {
    &&& laws::asked(turns[k]) == Some(AgentOp::RemoveFile { path: file })
    &&& k < replies.len() ==> turns[k + 1] == AgentTurn::Failed(error)
}

/// An installation of the agent fails only for a cause: a failure that was met, a binary
/// whose path no plist can hold, an agent that is there while the caller does not insist,
/// or a template that yields no plist.
pub proof fn agent_installations_fail_only_for_a_cause(
    euid: u32,
    uid: u32,
    force: bool,
    replies: Seq<AgentReply>,
    turns: Seq<AgentTurn>,
    k: int,
    op: AgentOp,
    error: AgentError,
)
    requires
        euid != 0,
        laws::course(
            session_agent::taken_up(euid, uid, AgentCommand::Install { force }),
            replies,
            turns,
        ),
        0 <= k < replies.len(),
        laws::asked(turns[k]) == Some(op),
        turns[k + 1] == AgentTurn::Failed(error),
        blamed(op, replies[k]) is None,
        !(op is RemoveFile),
    ensures
        match error {
            AgentError::NotUtf8 { path } => op is CurrentExe && (replies[k] matches
                AgentReply::Path(Ok(exe)) && !exe.exact() && path == exe.text),
            AgentError::AlreadyInstalled { path: _ } => op is FileExists && !force && replies[k]
                == AgentReply::Exists(true),
            AgentError::Plist(_) => op is FileExists,
            _ => false,
        },
{
    lemma_installing(uid, force, replies, turns, k);
    assert(laws::went_on(turns[k], replies[k], turns[k + 1]));
}

/// `target` names the agent in the session of the user.
pub open spec fn names_agent(target: Seq<char>, uid: u32) -> bool {
    exists|digits: Seq<char>| #[trigger]
        text::decimal_value(digits) == uid && digits.len() > 0 && text::all_digits(digits)
            && target == "gui/"@ + digits + "/me.pansen.wgd.session-agent"@
}

/// Operations on launchd run launchctl in the session of the very user: to end, accept
/// or print the user's agent, or to load its plist. No other operation runs it.
pub proof fn launchd_operations_name_the_users_agent(op: AgentOp)
    ensures
        match op {
            AgentOp::Bootout { uid } => op.args() matches Some(args) && args.len() == 2 && args[0]
                == "bootout"@ && names_agent(args[1], uid),
            AgentOp::Enable { uid } => op.args() matches Some(args) && args.len() == 2 && args[0]
                == "enable"@ && names_agent(args[1], uid),
            AgentOp::IsLoaded { uid } => op.args() matches Some(args) && args.len() == 2 && args[0]
                == "print"@ && names_agent(args[1], uid),
            AgentOp::Bootstrap { uid, plist } => op.args() matches Some(args) && args.len() == 3
                && args[0] == "bootstrap"@ && names_agent(
                args[1] + "/me.pansen.wgd.session-agent"@,
                uid,
            ) && args[2] == plist@,
            _ => op.args() is None,
        },
{
    match op {
        AgentOp::Bootout { uid } => lemma_names_agent(uid),
        AgentOp::Enable { uid } => lemma_names_agent(uid),
        AgentOp::IsLoaded { uid } => lemma_names_agent(uid),
        AgentOp::Bootstrap { uid, plist: _ } => lemma_names_agent(uid),
        _ => {},
    }
}

proof fn lemma_names_agent(uid: u32)
    ensures
        names_agent(steps::target(uid), uid),
        names_agent(steps::domain(uid) + "/me.pansen.wgd.session-agent"@, uid),
{
    reveal_strlit("/");
    reveal_strlit("me.pansen.wgd.session-agent");
    reveal_strlit("/me.pansen.wgd.session-agent");
    text::lemma_decimal_digits(uid as nat);
    text::decimal_reads_back(uid as nat);
    let digits = text::decimal(uid as nat);
    let name = "/me.pansen.wgd.session-agent"@;
    assert("/"@ + "me.pansen.wgd.session-agent"@ =~= name);
    assert(steps::target(uid) =~= "gui/"@ + digits + name);
    assert(text::decimal_value(digits) == uid);
}

// ---- the agent --------------------------------------------------------------

/// The listed connections that the agent is to bring up: those that start by
/// themselves, are down, and were not taken down by the user.
pub open spec fn due(list: Seq<ConnectionSummary>) -> Seq<ConnectionSummary> {
    list.filter(
        |conn: ConnectionSummary|
            conn.start_mode == ConnectionStartMode::Automatic && !conn.connected
                && !conn.user_disconnected,
    )
}

/// The listed connections that are up.
pub open spec fn ups(list: Seq<ConnectionSummary>) -> Seq<ConnectionSummary> {
    list.filter(|conn: ConnectionSummary| conn.connected)
}

/// The listed connections that the agent leaves down for the user's sake: those that
/// start by themselves and are down because the user took them down.
pub open spec fn left_down(list: Seq<ConnectionSummary>) -> Seq<ConnectionSummary> {
    list.filter(
        |conn: ConnectionSummary|
            conn.start_mode == ConnectionStartMode::Automatic && !conn.connected
                && conn.user_disconnected,
    )
}

/// What the agent selects is what is due, and what it passes over is what the user
/// took down, each in the order of the list.
pub proof fn selection_is_what_is_due(list: Seq<ConnectionSummary>)
    ensures
        candidates::eligible_ids(list).len() == due(list).len(),
        forall|i: int|
            0 <= i < due(list).len() ==> #[trigger] candidates::eligible_ids(list)[i] == due(
                list,
            )[i].id,
        candidates::passed_over_ids(list).len() == left_down(list).len(),
        forall|i: int|
            0 <= i < left_down(list).len() ==> #[trigger] candidates::passed_over_ids(list)[i]
                == left_down(list)[i].id,
    decreases list.len(),
{
    reveal(Seq::filter);
    if list.len() > 0 {
        selection_is_what_is_due(list.drop_last());
    }
}

proof fn lemma_ups(list: Seq<ConnectionSummary>)
    ensures
        crate::client::connected_ids(list).len() == ups(list).len(),
        forall|i: int|
            0 <= i < ups(list).len() ==> #[trigger] crate::client::connected_ids(list)[i] == ups(
                list,
            )[i].id,
    decreases list.len(),
{
    reveal(Seq::filter);
    if list.len() > 0 {
        lemma_ups(list.drop_last());
    }
}

/// Listing the user's own connections.
pub open spec fn lists_own(op: Option<AgentOp>) -> bool {
    op == Some(
        AgentOp::Client(ClientOp::List { scope: ConnectionScope::Mine, autostart: true }),
    )
}

/// What a turn tells of first.
pub open spec fn noted(turn: AgentTurn) -> Option<AgentNote> {
    match turn {
        AgentTurn::Do { note, op: _, state: _ } => note,
        AgentTurn::Done { note, report: _ } => note,
        AgentTurn::Failed(_) => None,
    }
}

/// The agent begins by holding the terminating signal back, and then asks for the
/// user's own connections. Of these it asks for each that is due to be brought up, in
/// their order, and then waits for a signal. A connection that fails is told of, and
/// so is a list that fails, and neither keeps the agent from what comes next.
pub proof fn agent_brings_up_what_is_due(
    euid: u32,
    uid: u32,
    replies: Seq<AgentReply>,
    turns: Seq<AgentTurn>,
    n: int,
)
    requires
        laws::course(session_agent::taken_up(euid, uid, AgentCommand::Run), replies, turns),
    ensures
        laws::asked(turns[0]) == Some(AgentOp::BlockSigterm),
        replies.len() > 0 ==> match replies[0] {
            AgentReply::Done(Ok(_)) => lists_own(laws::asked(turns[1])),
            AgentReply::Done(Err(cause)) => turns[1] == AgentTurn::Failed(
                AgentError::NotBlocked { cause },
            ),
            _ => false,
        },
        replies.len() > 1 ==> match replies[1] {
            AgentReply::Client(ClientReply::Listed(Ok(list))) => {
                &&& 0 <= n < due(list@).len() && n + 2 < turns.len() ==> laws::asked(turns[n + 2])
                    == Some(
                    AgentOp::Client(
                        ClientOp::Connect {
                            id: due(list@)[n].id,
                            debug: false,
                            reason: ConnectReason::Reconciliation,
                        },
                    ),
                )
                &&& n == due(list@).len() && n + 2 < turns.len() ==> laws::asked(turns[n + 2])
                    == Some(AgentOp::WaitSignal)
                &&& 0 <= n < due(list@).len() && n + 3 < turns.len() ==> match replies[n + 2] {
                    AgentReply::Client(ClientReply::Done(Ok(_))) => noted(turns[n + 3]) is None,
                    AgentReply::Client(ClientReply::Done(Err(cause))) => noted(turns[n + 3])
                        == Some(AgentNote::ConnectFailed { id: due(list@)[n].id, cause }),
                    _ => false,
                }
            },
            AgentReply::Client(ClientReply::Listed(Err(cause))) => laws::asked(turns[2]) == Some(
                AgentOp::WaitSignal,
            ) && noted(turns[2]) == Some(AgentNote::ListFailed { cause }),
            _ => false,
        },
{
    if replies.len() > 0 {
        assert(laws::went_on(turns[0], replies[0], turns[1]));
    }
    if replies.len() > 1 {
        laws::lemma_run(replies, turns, 1);
        assert(laws::went_on(turns[1], replies[1], turns[2]));
        if let AgentReply::Client(ClientReply::Listed(Ok(list))) = replies[1] {
            selection_is_what_is_due(list@);
            if 0 <= n <= due(list@).len() && n + 2 < turns.len() {
                lemma_bringing_up(replies, turns, list, n);
                if n < due(list@).len() && n + 3 < turns.len() {
                    assert(laws::went_on(turns[n + 2], replies[n + 2], turns[n + 3]));
                }
            }
        }
    }
}

proof fn lemma_bringing_up(
    replies: Seq<AgentReply>,
    turns: Seq<AgentTurn>,
    list: Vec<ConnectionSummary>,
    n: int,
)
    requires
        laws::course(session_agent::run::run_begun(), replies, turns),
        replies.len() > 1,
        replies[1] == AgentReply::Client(ClientReply::Listed(Ok(list))),
        0 <= n <= candidates::eligible_ids(list@).len(),
        n + 2 < turns.len(),
    ensures
        n < candidates::eligible_ids(list@).len() ==> (turns[n + 2] matches AgentTurn::Do {
            note: _,
            op,
            state: AgentState::Run(RunState::Connecting { ids, at }),
        } && ids@ == candidates::eligible_ids(list@) && at == n && op
            == session_agent::run::bringing_up(ids@[n])),
        n == candidates::eligible_ids(list@).len() ==> laws::asked(turns[n + 2]) == Some(
            AgentOp::WaitSignal,
        ),
    decreases n,
{
    laws::lemma_run(replies, turns, 1);
    assert(laws::went_on(turns[0], replies[0], turns[1]));
    assert(laws::went_on(turns[n + 1], replies[n + 1], turns[n + 2]));
    if n > 0 {
        lemma_bringing_up(replies, turns, list, n - 1);
    }
}

/// While the agent waits, only the terminating signal ends the wait: then the agent
/// asks for the user's own connections, to take them down. Any other signal has it
/// wait on.
pub proof fn agent_waits_for_the_terminating_signal(
    euid: u32,
    uid: u32,
    replies: Seq<AgentReply>,
    turns: Seq<AgentTurn>,
    k: int,
)
    requires
        laws::course(session_agent::taken_up(euid, uid, AgentCommand::Run), replies, turns),
        0 <= k < replies.len(),
        laws::asked(turns[k]) == Some(AgentOp::WaitSignal),
    ensures
        match replies[k] {
            AgentReply::Signal(Ok(terminating)) => if terminating {
                lists_own(laws::asked(turns[k + 1]))
            } else {
                laws::asked(turns[k + 1]) == Some(AgentOp::WaitSignal)
            },
            AgentReply::Signal(Err(cause)) => turns[k + 1] == AgentTurn::Failed(
                AgentError::WaitFailed { cause },
            ),
            _ => false,
        },
{
    laws::lemma_run(replies, turns, k);
    assert(laws::went_on(turns[k], replies[k], turns[k + 1]));
}

/// At its end the agent asks for each of the user's connections that is up to be
/// taken down, in their order, because the session ends; and when all were asked, it
/// ends. A connection that fails is told of, and so is a list that fails.
pub proof fn agent_takes_down_what_is_up(
    euid: u32,
    uid: u32,
    replies: Seq<AgentReply>,
    turns: Seq<AgentTurn>,
    k: int,
    n: int,
)
    requires
        laws::course(session_agent::taken_up(euid, uid, AgentCommand::Run), replies, turns),
        0 < k < replies.len(),
        replies[k - 1] == AgentReply::Signal(Ok(true)),
    ensures
        match replies[k] {
            AgentReply::Client(ClientReply::Listed(Ok(list))) => {
                &&& 0 <= n < ups(list@).len() && k + 1 + n < turns.len() ==> laws::asked(
                    turns[k + 1 + n],
                ) == Some(
                    AgentOp::Client(
                        ClientOp::Disconnect {
                            id: ups(list@)[n].id,
                            reason: DisconnectReason::SessionTeardown,
                            autostart: true,
                        },
                    ),
                )
                &&& n == ups(list@).len() && k + 1 + n < turns.len() ==> (turns[k + 1 + n] matches
                    AgentTurn::Done { note: _, report } && report is Ended)
                &&& 0 <= n < ups(list@).len() && k + 2 + n < turns.len() ==> match replies[k + 1
                    + n] {
                    AgentReply::Client(ClientReply::Done(Ok(_))) => noted(turns[k + 2 + n]) is None,
                    AgentReply::Client(ClientReply::Done(Err(cause))) => noted(turns[k + 2 + n])
                        == Some(AgentNote::DisconnectFailed { id: ups(list@)[n].id, cause }),
                    _ => false,
                }
            },
            AgentReply::Client(ClientReply::Listed(Err(cause))) => turns[k + 1]
                == (AgentTurn::Done {
                note: Some(AgentNote::TeardownListFailed { cause }),
                report: AgentReport::Ended,
            }),
            _ => false,
        },
{
    laws::lemma_run(replies, turns, k - 1);
    assert(laws::went_on(turns[k - 1], replies[k - 1], turns[k]));
    assert(laws::went_on(turns[k], replies[k], turns[k + 1]));
    assert(laws::told_to_end(replies, k));
    if let AgentReply::Client(ClientReply::Listed(Ok(list))) = replies[k] {
        lemma_ups(list@);
        if 0 <= n < ups(list@).len() && k + 1 + n < turns.len() {
            laws::lemma_teardown(replies, turns, k, list, n);
            if k + 2 + n < turns.len() {
                assert(laws::went_on(turns[k + 1 + n], replies[k + 1 + n], turns[k + 2 + n]));
            }
        }
        if 0 < n == ups(list@).len() && k + 1 + n < turns.len() {
            laws::lemma_teardown(replies, turns, k, list, n - 1);
            assert(laws::went_on(turns[k + n], replies[k + n], turns[k + n + 1]));
        }
    }
}

} // verus!
