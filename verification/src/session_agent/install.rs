//! Installing the session agent, removing it, and asking about it.

use vstd::prelude::*;

use crate::identity::{effective_uid, real_uid};
use crate::launchd::steps::PLIST_MODE;
use crate::session_agent::plist::{render_plist, PLIST_TEMPLATE};
use crate::session_agent::steps;
use crate::session_agent::steps::{
    launch_agents_dir, plist_path, AgentError, AgentOp, AgentReply, AgentReport, AgentState,
    AgentTurn,
};

verus! {

/// Refuses a process that acts as root.
pub fn refuse_if_root_as(euid: u32) -> (result: Result<(), AgentError>)
    ensures
        match result {
            Ok(_) => euid != 0,
            Err(error) => euid == 0 && error == AgentError::AsRoot,
        },
{
    if euid == 0 {
        return Err(AgentError::AsRoot);
    }
    Ok(())
}

/// Refuses a process that runs as root: the agent belongs to a user.
pub fn refuse_if_root() -> (result: Result<(), AgentError>)
    ensures
        result matches Err(error) ==> error == AgentError::AsRoot,
{
    refuse_if_root_as(effective_uid())
}

// ---- installing -------------------------------------------------------------

/// An agent to be installed.
#[derive(Debug)]
pub struct AgentJob {
    pub uid: u32,
    pub home: String,
    pub binary: String,
    pub plist_path: String,
}

/// What an installation is waiting for.
#[derive(Debug)]
pub enum AgentInstallState {
    FindingHome { uid: u32, force: bool },
    FindingExe { uid: u32, force: bool, home: String },
    Checking { job: AgentJob, force: bool },
    /// The directory, and what the plist is going to hold.
    CreatingDir { job: AgentJob, dir: String, contents: String },
    Writing { job: AgentJob, draft: String },
    SettingMode { job: AgentJob, draft: String },
    Renaming { job: AgentJob, draft: String },
    /// The draft did not make it, for this reason, and is to be removed.
    DroppingDraft(AgentError),
    Dropping(AgentJob),
    Enabling(AgentJob),
    Loading(AgentJob),
}

impl AgentInstallState {
    /// `reply` is of the kind that the installation is waiting for.
    pub open spec fn accepts(self, reply: AgentReply) -> bool {
        match self {
            AgentInstallState::FindingHome { .. } => reply is Var,
            AgentInstallState::FindingExe { .. } => reply is Path,
            AgentInstallState::Checking { .. } => reply is Exists,
            _ => reply is Done,
        }
    }
}

/// The installation goes on with `op`.
pub open spec fn next(op: AgentOp, state: AgentInstallState) -> AgentTurn {
    AgentTurn::Do { note: None, op, state: AgentState::Install(state) }
}

fn go_on(op: AgentOp, state: AgentInstallState) -> (turn: AgentTurn)
    ensures
        turn == next(op, state),
{
    AgentTurn::Do { note: None, op, state: AgentState::Install(state) }
}

/// How an installation for the user `uid` begins.
pub open spec fn install_begun(uid: u32, force: bool) -> AgentTurn {
    next(AgentOp::ReadHome, AgentInstallState::FindingHome { uid, force })
}

/// Starts to install the agent, for a process of the user `uid` that acts as
/// `euid`.
pub fn install_as(euid: u32, uid: u32, force: bool) -> (turn: AgentTurn)
    ensures
        euid == 0 ==> turn == AgentTurn::Failed(AgentError::AsRoot),
        euid != 0 ==> turn == install_begun(uid, force),
        steps::ready(turn),
{
    match refuse_if_root_as(euid) {
        Err(error) => AgentTurn::Failed(error),
        Ok(_) => go_on(AgentOp::ReadHome, AgentInstallState::FindingHome { uid, force }),
    }
}

/// An installation begins, for some user, or is refused to root.
pub open spec fn install_taken_up(force: bool, turn: AgentTurn) -> bool {
    turn == AgentTurn::Failed(AgentError::AsRoot) || exists|uid: u32|
        turn == #[trigger] install_begun(uid, force)
}

/// Starts to install the agent.
pub fn cmd_install(force: bool) -> (turn: AgentTurn)
    ensures
        install_taken_up(force, turn),
        steps::ready(turn),
{
    install_as(effective_uid(), real_uid(), force)
}

/// Starts to install the agent anew, over whatever is there.
pub fn reinstall() -> (turn: AgentTurn)
    ensures
        install_taken_up(true, turn),
        steps::ready(turn),
{
    cmd_install(true)
}

/// The draft did not make it: it is removed, and then the failure is reported.
pub open spec fn draft_dropped(draft: String, error: AgentError) -> AgentTurn {
    next(AgentOp::RemoveFile { path: draft }, AgentInstallState::DroppingDraft(error))
}

/// An installation that nothing speaks against: the plist is rendered, and its
/// directory is made, or the template does not yield one.
pub open spec fn cleared(job: AgentJob, turn: AgentTurn) -> bool {
    match crate::session_agent::plist::rendering(PLIST_TEMPLATE@, job.binary@, job.home@) {
        Err(error) => turn == AgentTurn::Failed(AgentError::Plist(error)),
        Ok(plist) => {
            &&& turn matches AgentTurn::Do {
                note: None,
                op: AgentOp::CreateDir { path },
                state: AgentState::Install(AgentInstallState::CreatingDir {
                    job: kept,
                    dir,
                    contents,
                }),
            }
            &&& kept == job
            &&& path == dir
            &&& dir@ == steps::agents_dir(job.home@)
            &&& contents@ == plist
        },
    }
}

/// How an installation goes on from an answer. An agent that is there already is
/// replaced only on demand. The one that runs is ended before the new one is
/// loaded, and a stale refusal of the agent is cleared, without which it could
/// not be loaded.
pub open spec fn install_stepped(
    state: AgentInstallState,
    reply: AgentReply,
    turn: AgentTurn,
) -> bool {
    match (state, reply) {
        (AgentInstallState::FindingHome { uid, force }, AgentReply::Var(Ok(home))) => turn == next(
            AgentOp::CurrentExe,
            AgentInstallState::FindingExe { uid, force, home },
        ),
        (AgentInstallState::FindingHome { .. }, AgentReply::Var(Err(cause))) => turn
            == AgentTurn::Failed(AgentError::NoHome { cause }),
        (AgentInstallState::FindingExe { uid, force, home }, AgentReply::Path(Ok(exe))) => {
            if !exe.exact() {
                turn == AgentTurn::Failed(AgentError::NotUtf8 { path: exe.text })
            } else {
                &&& turn matches AgentTurn::Do {
                    note: None,
                    op: AgentOp::FileExists { path },
                    state: AgentState::Install(AgentInstallState::Checking { job, force: same }),
                }
                &&& path == job.plist_path
                &&& path@ == steps::plist_place(home@)
                &&& same == force
                &&& job == (AgentJob { uid, home, binary: exe.text, plist_path: path })
            }
        },
        (AgentInstallState::FindingExe { .. }, AgentReply::Path(Err(cause))) => turn
            == AgentTurn::Failed(AgentError::ExeUnknown { cause }),
        (AgentInstallState::Checking { job, force }, AgentReply::Exists(there)) => if there
            && !force {
            turn == AgentTurn::Failed(AgentError::AlreadyInstalled { path: job.plist_path })
        } else {
            cleared(job, turn)
        },
        (AgentInstallState::CreatingDir { job, dir: _, contents }, AgentReply::Done(Ok(_))) => {
            &&& turn matches AgentTurn::Do {
                note: None,
                op: AgentOp::WriteFile { path, contents: written },
                state: AgentState::Install(AgentInstallState::Writing { job: kept, draft }),
            }
            &&& kept == job
            &&& path == draft
            &&& draft@ == job.plist_path@ + ".tmp"@
            &&& written == contents
        },
        (AgentInstallState::CreatingDir { job: _, dir, contents: _ }, AgentReply::Done(Err(cause)))
            => turn == AgentTurn::Failed(AgentError::CreateFailed { path: dir, cause }),
        (AgentInstallState::Writing { job, draft }, AgentReply::Done(Ok(_))) => turn == next(
            AgentOp::SetMode { path: draft, mode: PLIST_MODE },
            AgentInstallState::SettingMode { job, draft },
        ),
        (AgentInstallState::Writing { job: _, draft }, AgentReply::Done(Err(cause))) => turn
            == draft_dropped(draft, AgentError::WriteFailed { path: draft, cause }),
        (AgentInstallState::SettingMode { job, draft }, AgentReply::Done(Ok(_))) => turn == next(
            AgentOp::Rename { from: draft, to: job.plist_path },
            AgentInstallState::Renaming { job, draft },
        ),
        (AgentInstallState::SettingMode { job: _, draft }, AgentReply::Done(Err(cause))) => turn
            == draft_dropped(draft, AgentError::ChmodFailed { path: draft, cause }),
        (AgentInstallState::Renaming { job, draft: _ }, AgentReply::Done(Ok(_))) => turn == next(
            AgentOp::Bootout { uid: job.uid },
            AgentInstallState::Dropping(job),
        ),
        (AgentInstallState::Renaming { job, draft }, AgentReply::Done(Err(cause))) => turn
            == draft_dropped(draft, AgentError::InstallFailed { path: job.plist_path, cause }),
        (AgentInstallState::DroppingDraft(error), _) => turn == AgentTurn::Failed(error),
        (AgentInstallState::Dropping(job), _) => turn == next(
            AgentOp::Enable { uid: job.uid },
            AgentInstallState::Enabling(job),
        ),
        (AgentInstallState::Enabling(job), AgentReply::Done(Ok(_))) => turn == next(
            AgentOp::Bootstrap { uid: job.uid, plist: job.plist_path },
            AgentInstallState::Loading(job),
        ),
        (AgentInstallState::Enabling(_), AgentReply::Done(Err(cause))) => turn
            == AgentTurn::Failed(AgentError::ProgramFailed { cause }),
        (AgentInstallState::Loading(job), AgentReply::Done(Ok(_))) => turn == AgentTurn::Done {
            note: None,
            report: AgentReport::Installed { plist: job.plist_path, binary: job.binary },
        },
        (AgentInstallState::Loading(_), AgentReply::Done(Err(cause))) => turn
            == AgentTurn::Failed(AgentError::ProgramFailed { cause }),
        _ => false,
    }
}

fn clear(job: AgentJob) -> (turn: AgentTurn)
    ensures
        cleared(job, turn),
        steps::ready(turn),
{
    match render_plist(PLIST_TEMPLATE, job.binary.as_str(), job.home.as_str()) {
        Err(error) => AgentTurn::Failed(AgentError::Plist(error)),
        Ok(contents) => {
            let dir = launch_agents_dir(job.home.as_str());
            let path = dir.clone();
            go_on(
                AgentOp::CreateDir { path },
                AgentInstallState::CreatingDir { job, dir, contents },
            )
        },
    }
}

/// Starts to write the plist, next to its place.
fn write_plist(job: AgentJob, contents: String) -> (turn: AgentTurn)
    ensures
        install_stepped(
            AgentInstallState::CreatingDir { job, dir: arbitrary(), contents },
            AgentReply::Done(Ok(())),
            turn,
        ),
        steps::ready(turn),
{
    let mut draft = job.plist_path.clone();
    draft.append(".tmp");
    let path = draft.clone();
    go_on(AgentOp::WriteFile { path, contents }, AgentInstallState::Writing { job, draft })
}

fn drop_draft(draft: String, error: AgentError) -> (turn: AgentTurn)
    ensures
        turn == draft_dropped(draft, error),
{
    go_on(AgentOp::RemoveFile { path: draft }, AgentInstallState::DroppingDraft(error))
}

/// Goes on with an installation from an answer.
pub fn resume_install(state: AgentInstallState, reply: AgentReply) -> (turn: AgentTurn)
    requires
        state.accepts(reply),
    ensures
        install_stepped(state, reply, turn),
        steps::ready(turn),
{
    match (state, reply) {
        (AgentInstallState::FindingHome { uid, force }, AgentReply::Var(result)) => match result {
            Ok(home) => go_on(
                AgentOp::CurrentExe,
                AgentInstallState::FindingExe { uid, force, home },
            ),
            Err(cause) => AgentTurn::Failed(AgentError::NoHome { cause }),
        },
        (AgentInstallState::FindingExe { uid, force, home }, AgentReply::Path(result)) => {
            match result {
                Ok(exe) => {
                    if !exe.is_exact() {
                        return AgentTurn::Failed(AgentError::NotUtf8 { path: exe.text });
                    }
                    let path = plist_path(home.as_str());
                    let wanted = path.clone();
                    let job = AgentJob { uid, home, binary: exe.text, plist_path: path };
                    go_on(
                        AgentOp::FileExists { path: wanted },
                        AgentInstallState::Checking { job, force },
                    )
                },
                Err(cause) => AgentTurn::Failed(AgentError::ExeUnknown { cause }),
            }
        },
        (AgentInstallState::Checking { job, force }, AgentReply::Exists(there)) => {
            if there && !force {
                return AgentTurn::Failed(AgentError::AlreadyInstalled { path: job.plist_path });
            }
            clear(job)
        },
        (AgentInstallState::CreatingDir { job, dir, contents }, AgentReply::Done(result)) => {
            match result {
                Ok(_) => write_plist(job, contents),
                Err(cause) => AgentTurn::Failed(AgentError::CreateFailed { path: dir, cause }),
            }
        },
        (AgentInstallState::Writing { job, draft }, AgentReply::Done(result)) => {
            let path = draft.clone();
            match result {
                Ok(_) => go_on(
                    AgentOp::SetMode { path, mode: PLIST_MODE },
                    AgentInstallState::SettingMode { job, draft },
                ),
                Err(cause) => drop_draft(draft, AgentError::WriteFailed { path, cause }),
            }
        },
        (AgentInstallState::SettingMode { job, draft }, AgentReply::Done(result)) => {
            let path = draft.clone();
            match result {
                Ok(_) => {
                    let to = job.plist_path.clone();
                    go_on(
                        AgentOp::Rename { from: path, to },
                        AgentInstallState::Renaming { job, draft },
                    )
                },
                Err(cause) => drop_draft(draft, AgentError::ChmodFailed { path, cause }),
            }
        },
        (AgentInstallState::Renaming { job, draft }, AgentReply::Done(result)) => match result {
            Ok(_) => {
                let uid: u32 = job.uid;
                go_on(AgentOp::Bootout { uid }, AgentInstallState::Dropping(job))
            },
            Err(cause) => drop_draft(
                draft,
                AgentError::InstallFailed { path: job.plist_path, cause },
            ),
        },
        (AgentInstallState::DroppingDraft(error), _) => AgentTurn::Failed(error),
        (AgentInstallState::Dropping(job), _) => {
            let uid: u32 = job.uid;
            go_on(AgentOp::Enable { uid }, AgentInstallState::Enabling(job))
        },
        (AgentInstallState::Enabling(job), AgentReply::Done(result)) => match result {
            Ok(_) => {
                let uid: u32 = job.uid;
                let plist = job.plist_path.clone();
                go_on(AgentOp::Bootstrap { uid, plist }, AgentInstallState::Loading(job))
            },
            Err(cause) => AgentTurn::Failed(AgentError::ProgramFailed { cause }),
        },
        (AgentInstallState::Loading(job), AgentReply::Done(result)) => match result {
            Ok(_) => AgentTurn::Done {
                note: None,
                report: AgentReport::Installed { plist: job.plist_path, binary: job.binary },
            },
            Err(cause) => AgentTurn::Failed(AgentError::ProgramFailed { cause }),
        },
        (_, _) => vstd::pervasive::unreached(),
    }
}

// ---- removing ---------------------------------------------------------------

/// What a removal is waiting for.
#[derive(Debug)]
pub enum AgentUninstallState {
    FindingHome { uid: u32 },
    Dropping { plist: String },
    Removing { plist: String },
}

impl AgentUninstallState {
    /// `reply` is of the kind that the removal is waiting for.
    pub open spec fn accepts(self, reply: AgentReply) -> bool {
        match self {
            AgentUninstallState::FindingHome { .. } => reply is Var,
            _ => reply is Done,
        }
    }
}

/// How a removal for the user `uid` begins.
pub open spec fn uninstall_begun(uid: u32) -> AgentTurn {
    AgentTurn::Do {
        note: None,
        op: AgentOp::ReadHome,
        state: AgentState::Uninstall(AgentUninstallState::FindingHome { uid }),
    }
}

/// Starts to remove the agent, for a process of the user `uid` that acts as
/// `euid`.
pub fn uninstall_as(euid: u32, uid: u32) -> (turn: AgentTurn)
    ensures
        euid == 0 ==> turn == AgentTurn::Failed(AgentError::AsRoot),
        euid != 0 ==> turn == uninstall_begun(uid),
        steps::ready(turn),
{
    match refuse_if_root_as(euid) {
        Err(error) => AgentTurn::Failed(error),
        Ok(_) => AgentTurn::Do {
            note: None,
            op: AgentOp::ReadHome,
            state: AgentState::Uninstall(AgentUninstallState::FindingHome { uid }),
        },
    }
}

/// A removal begins, for some user, or is refused to root.
pub open spec fn uninstall_taken_up(turn: AgentTurn) -> bool {
    turn == AgentTurn::Failed(AgentError::AsRoot) || exists|uid: u32|
        turn == #[trigger] uninstall_begun(uid)
}

/// Starts to remove the agent.
pub fn cmd_uninstall() -> (turn: AgentTurn)
    ensures
        uninstall_taken_up(turn),
        steps::ready(turn),
{
    uninstall_as(effective_uid(), real_uid())
}

/// How a removal goes on from an answer. Ending the agent has it take its
/// connections down, and only then its plist goes.
pub open spec fn uninstall_stepped(
    state: AgentUninstallState,
    reply: AgentReply,
    turn: AgentTurn,
) -> bool {
    match (state, reply) {
        (AgentUninstallState::FindingHome { uid }, AgentReply::Var(Ok(home))) => {
            &&& turn matches AgentTurn::Do {
                note: None,
                op: AgentOp::Bootout { uid: same },
                state: AgentState::Uninstall(AgentUninstallState::Dropping { plist }),
            }
            &&& same == uid
            &&& plist@ == steps::plist_place(home@)
        },
        (AgentUninstallState::FindingHome { .. }, AgentReply::Var(Err(cause))) => turn
            == AgentTurn::Failed(AgentError::NoHome { cause }),
        (AgentUninstallState::Dropping { plist }, _) => turn == AgentTurn::Do {
            note: None,
            op: AgentOp::RemoveIfPresent { path: plist },
            state: AgentState::Uninstall(AgentUninstallState::Removing { plist }),
        },
        (AgentUninstallState::Removing { plist }, AgentReply::Done(Ok(_))) => turn
            == AgentTurn::Done { note: None, report: AgentReport::Uninstalled { plist } },
        (AgentUninstallState::Removing { .. }, AgentReply::Done(Err(cause))) => turn
            == AgentTurn::Failed(AgentError::RemoveFailed { cause }),
        _ => false,
    }
}

/// Goes on with a removal from an answer.
pub fn resume_uninstall(state: AgentUninstallState, reply: AgentReply) -> (turn: AgentTurn)
    requires
        state.accepts(reply),
    ensures
        uninstall_stepped(state, reply, turn),
        steps::ready(turn),
{
    match (state, reply) {
        (AgentUninstallState::FindingHome { uid }, AgentReply::Var(result)) => match result {
            Ok(home) => {
                let plist = plist_path(home.as_str());
                AgentTurn::Do {
                    note: None,
                    op: AgentOp::Bootout { uid },
                    state: AgentState::Uninstall(AgentUninstallState::Dropping { plist }),
                }
            },
            Err(cause) => AgentTurn::Failed(AgentError::NoHome { cause }),
        },
        (AgentUninstallState::Dropping { plist }, _) => {
            let path = plist.clone();
            AgentTurn::Do {
                note: None,
                op: AgentOp::RemoveIfPresent { path },
                state: AgentState::Uninstall(AgentUninstallState::Removing { plist }),
            }
        },
        (AgentUninstallState::Removing { plist }, AgentReply::Done(result)) => match result {
            Ok(_) => AgentTurn::Done { note: None, report: AgentReport::Uninstalled { plist } },
            Err(cause) => AgentTurn::Failed(AgentError::RemoveFailed { cause }),
        },
        (_, _) => vstd::pervasive::unreached(),
    }
}

// ---- asking -----------------------------------------------------------------

/// What a question about the agent is waiting for.
#[derive(Debug)]
pub enum AgentStatusState {
    FindingHome { uid: u32 },
    Checking { uid: u32, plist: String },
    Asking { plist: String },
}

impl AgentStatusState {
    /// `reply` is of the kind that the question is waiting for.
    pub open spec fn accepts(self, reply: AgentReply) -> bool {
        match self {
            AgentStatusState::FindingHome { .. } => reply is Var,
            AgentStatusState::Checking { .. } => reply is Exists,
            AgentStatusState::Asking { .. } => reply is Status,
        }
    }
}

/// How a question about the agent of the user `uid` begins.
pub open spec fn status_begun(uid: u32) -> AgentTurn {
    AgentTurn::Do {
        note: None,
        op: AgentOp::ReadHome,
        state: AgentState::Status(AgentStatusState::FindingHome { uid }),
    }
}

/// Starts to ask about the agent of the user `uid`.
pub fn status_as(uid: u32) -> (turn: AgentTurn)
    ensures
        turn == status_begun(uid),
        steps::ready(turn),
{
    AgentTurn::Do {
        note: None,
        op: AgentOp::ReadHome,
        state: AgentState::Status(AgentStatusState::FindingHome { uid }),
    }
}

/// A question about the agent begins, for some user.
pub open spec fn status_taken_up(turn: AgentTurn) -> bool {
    exists|uid: u32| turn == #[trigger] status_begun(uid)
}

/// Starts to ask about the agent.
pub fn cmd_status() -> (turn: AgentTurn)
    ensures
        status_taken_up(turn),
        steps::ready(turn),
{
    status_as(real_uid())
}

/// How a question about the agent goes on from an answer. Where launchd cannot be
/// asked, the agent counts as not loaded.
pub open spec fn status_stepped(
    state: AgentStatusState,
    reply: AgentReply,
    turn: AgentTurn,
) -> bool {
    match (state, reply) {
        (AgentStatusState::FindingHome { uid }, AgentReply::Var(Ok(home))) => {
            &&& turn matches AgentTurn::Do {
                note: None,
                op: AgentOp::FileExists { path },
                state: AgentState::Status(AgentStatusState::Checking { uid: same, plist }),
            }
            &&& same == uid
            &&& path == plist
            &&& plist@ == steps::plist_place(home@)
        },
        (AgentStatusState::FindingHome { .. }, AgentReply::Var(Err(cause))) => turn
            == AgentTurn::Failed(AgentError::NoHome { cause }),
        (AgentStatusState::Checking { uid, plist }, AgentReply::Exists(there)) => turn == (
        if there {
            AgentTurn::Do {
                note: None,
                op: AgentOp::IsLoaded { uid },
                state: AgentState::Status(AgentStatusState::Asking { plist }),
            }
        } else {
            AgentTurn::Done { note: None, report: AgentReport::NotInstalled }
        }),
        (AgentStatusState::Asking { plist }, AgentReply::Status(answer)) => turn
            == AgentTurn::Done {
            note: None,
            report: AgentReport::Present {
                plist,
                loaded: answer matches Ok(success) && success,
            },
        },
        _ => false,
    }
}

/// Goes on with a question about the agent from an answer.
pub fn resume_status(state: AgentStatusState, reply: AgentReply) -> (turn: AgentTurn)
    requires
        state.accepts(reply),
    ensures
        status_stepped(state, reply, turn),
        steps::ready(turn),
{
    match (state, reply) {
        (AgentStatusState::FindingHome { uid }, AgentReply::Var(result)) => match result {
            Ok(home) => {
                let plist = plist_path(home.as_str());
                let path = plist.clone();
                AgentTurn::Do {
                    note: None,
                    op: AgentOp::FileExists { path },
                    state: AgentState::Status(AgentStatusState::Checking { uid, plist }),
                }
            },
            Err(cause) => AgentTurn::Failed(AgentError::NoHome { cause }),
        },
        (AgentStatusState::Checking { uid, plist }, AgentReply::Exists(there)) => {
            if !there {
                return AgentTurn::Done { note: None, report: AgentReport::NotInstalled };
            }
            AgentTurn::Do {
                note: None,
                op: AgentOp::IsLoaded { uid },
                state: AgentState::Status(AgentStatusState::Asking { plist }),
            }
        },
        (AgentStatusState::Asking { plist }, AgentReply::Status(answer)) => {
            let loaded: bool = is_loaded(answer);
            AgentTurn::Done { note: None, report: AgentReport::Present { plist, loaded } }
        },
        (_, _) => vstd::pervasive::unreached(),
    }
}

/// Whether launchd has the agent loaded, given what came of asking it.
pub fn is_loaded(answer: Result<bool, String>) -> (loaded: bool)
    ensures
        loaded == (answer matches Ok(success) && success),
{
    match answer {
        Ok(success) => success,
        Err(_) => false,
    }
}

} // verus!
