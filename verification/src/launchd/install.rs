//! Installing the daemon. Everything that can refuse the installation is looked
//! at before anything on the machine is changed.

use vstd::prelude::*;

use crate::identity::effective_uid;
use crate::launchd::failure::LaunchdError;
use crate::launchd::locate::{daemon_binary_path, resume_locate, LocateState, LocateStep};
use crate::launchd::plist::{check_template, render_plist_from, PLIST_TEMPLATE};
use crate::launchd::restart::require_root_as;
use crate::launchd::steps;
use crate::launchd::steps::{
    LaunchdOp, LaunchdReply, LaunchdReport, LaunchdState, LaunchdTurn, Places, Registration,
    LOG_DIR_MODE, SOCKET_DIR_MODE,
};
use crate::paths::PathText;

verus! {

/// An installation whose user is known.
#[derive(Debug)]
pub struct InstallJob {
    pub user: String,
    pub template_path: Option<PathText>,
    pub places: Places,
}

/// An installation that nothing speaks against.
#[derive(Debug)]
pub struct InstallPlan {
    pub job: InstallJob,
    pub binary: String,
    pub template: String,
}

/// An installation whose group is in place.
#[derive(Debug)]
pub struct GroupedPlan {
    pub plan: InstallPlan,
    pub gid: u32,
    pub member_added: bool,
}

/// What the group is waiting for.
#[derive(Debug)]
pub enum GroupState {
    Reading,
    Creating,
    CheckingMember,
    AddingMember,
    /// Whether the user was made a member.
    LookingUp(bool),
}

/// What the directories are waiting for.
#[derive(Debug)]
pub enum DirectoryState {
    CreatingLogs,
    OpeningLogs,
    CreatingSocket,
    GivingSocket,
    ClosingSocket,
}

/// What the plist is waiting for.
#[derive(Debug)]
pub enum DraftState {
    Writing,
    SettingMode,
    SettingOwner,
    Installing,
}

/// What launchd is waiting for.
#[derive(Debug)]
pub enum BootstrapState {
    Dropping,
    Enabling,
    Loading,
}

/// What an installation is waiting for.
#[derive(Debug)]
pub enum InstallState {
    FindingUser(Option<PathText>, Places),
    Locating(InstallJob, LocateState),
    /// The binary's path.
    ReadingTemplate(InstallJob, String),
    Grouping(InstallPlan, GroupState),
    MakingDirectories(GroupedPlan, DirectoryState),
    Registering(GroupedPlan),
    WritingPlist(GroupedPlan, DraftState),
    /// The draft did not make it, for this reason, and is to be removed.
    DroppingDraft(LaunchdError),
    Bootstrapping(GroupedPlan, BootstrapState),
}

impl InstallState {
    /// `reply` is of the kind that the installation is waiting for.
    pub open spec fn accepts(self, reply: LaunchdReply) -> bool {
        match self {
            InstallState::FindingUser(_, _) => reply is Var,
            InstallState::Locating(_, state) => state.accepts(reply),
            InstallState::ReadingTemplate(job, _) => reply is Text && job.template_path is Some,
            InstallState::Grouping(_, GroupState::Reading) => reply is Status,
            InstallState::Grouping(_, GroupState::CheckingMember) => reply is Status,
            InstallState::Grouping(_, GroupState::LookingUp(_)) => reply is Gid,
            InstallState::Registering(_) => reply is Registered,
            _ => reply is Done,
        }
    }
}

/// The installation goes on with `op`.
pub open spec fn next(op: LaunchdOp, state: InstallState) -> LaunchdTurn {
    LaunchdTurn::Do { note: None, op, state: LaunchdState::Install(state) }
}

fn go_on(op: LaunchdOp, state: InstallState) -> (turn: LaunchdTurn)
    ensures
        turn == next(op, state),
{
    LaunchdTurn::Do { note: None, op, state: LaunchdState::Install(state) }
}

// ---- the beginning ----------------------------------------------------------

/// How an installation begins.
pub open spec fn install_begun(plist_template: Option<PathText>, places: Places) -> LaunchdTurn {
    next(LaunchdOp::ReadSudoUser, InstallState::FindingUser(plist_template, places))
}

/// Starts to install the daemon, for a process that acts as `euid`.
pub fn install_as(euid: u32, plist_template: Option<PathText>, places: Places) -> (turn: LaunchdTurn)
    ensures
        euid == 0 ==> turn == install_begun(plist_template, places),
        euid != 0 ==> crate::launchd::restart::refused(turn, "install"@),
        steps::ready(turn),
{
    match require_root_as(euid, "install") {
        Err(error) => LaunchdTurn::Failed(error),
        Ok(_) => go_on(
            LaunchdOp::ReadSudoUser,
            InstallState::FindingUser(plist_template, places),
        ),
    }
}

/// Starts to install the daemon.
pub fn cmd_install(plist_template: Option<PathText>, places: Places) -> (turn: LaunchdTurn)
    ensures
        turn == install_begun(plist_template, places) || crate::launchd::restart::refused(
            turn,
            "install"@,
        ),
        steps::ready(turn),
{
    install_as(effective_uid(), plist_template, places)
}

/// The user who ran `sudo`, given the value of the variable that names them.
pub fn invoking_user(sudo_user: Option<String>) -> (result: Result<String, LaunchdError>)
    ensures
        result == (match sudo_user {
            Some(user) => if user@.len() > 0 {
                Ok::<String, LaunchdError>(user)
            } else {
                Err(LaunchdError::NoInvokingUser)
            },
            None => Err(LaunchdError::NoInvokingUser),
        }),
{
    match sudo_user {
        Some(user) => if user.as_str().unicode_len() > 0 {
            Ok(user)
        } else {
            Err(LaunchdError::NoInvokingUser)
        },
        None => Err(LaunchdError::NoInvokingUser),
    }
}

// ---- the group --------------------------------------------------------------

/// How the group goes on from an answer.
pub open spec fn group_next(
    plan: InstallPlan,
    state: GroupState,
    reply: LaunchdReply,
) -> LaunchdTurn {
    let user = plan.job.user;
    match (state, reply) {
        (GroupState::Reading, LaunchdReply::Status(Ok(there))) => if there {
            next(
                LaunchdOp::CheckMember { user },
                InstallState::Grouping(plan, GroupState::CheckingMember),
            )
        } else {
            next(LaunchdOp::CreateGroup, InstallState::Grouping(plan, GroupState::Creating))
        },
        (GroupState::Reading, LaunchdReply::Status(Err(cause))) => LaunchdTurn::Failed(
            LaunchdError::GroupToolFailed { cause },
        ),
        (GroupState::Creating, LaunchdReply::Done(Ok(_))) => next(
            LaunchdOp::CheckMember { user },
            InstallState::Grouping(plan, GroupState::CheckingMember),
        ),
        (GroupState::CheckingMember, LaunchdReply::Status(Ok(member))) => if member {
            next(LaunchdOp::GroupId, InstallState::Grouping(plan, GroupState::LookingUp(false)))
        } else {
            next(
                LaunchdOp::AddMember { user },
                InstallState::Grouping(plan, GroupState::AddingMember),
            )
        },
        (GroupState::CheckingMember, LaunchdReply::Status(Err(cause))) => LaunchdTurn::Failed(
            LaunchdError::MembershipUnknown { cause },
        ),
        (GroupState::AddingMember, LaunchdReply::Done(Ok(_))) => next(
            LaunchdOp::GroupId,
            InstallState::Grouping(plan, GroupState::LookingUp(true)),
        ),
        (GroupState::LookingUp(member_added), LaunchdReply::Gid(Some(gid))) => next(
            LaunchdOp::CreateDir { path: plan.job.places.log_dir },
            InstallState::MakingDirectories(
                GroupedPlan { plan, gid, member_added },
                DirectoryState::CreatingLogs,
            ),
        ),
        (GroupState::LookingUp(_), LaunchdReply::Gid(None)) => LaunchdTurn::Failed(
            LaunchdError::GroupMissing,
        ),
        (_, LaunchdReply::Done(Err(cause))) => LaunchdTurn::Failed(
            LaunchdError::ProgramFailed { cause },
        ),
        _ => arbitrary(),
    }
}

/// Starts to see to the group: that it exists and that the user is a member.
pub fn ensure_group_with_member(plan: InstallPlan) -> (turn: LaunchdTurn)
    ensures
        turn == next(LaunchdOp::ReadGroup, InstallState::Grouping(plan, GroupState::Reading)),
{
    go_on(LaunchdOp::ReadGroup, InstallState::Grouping(plan, GroupState::Reading))
}

fn resume_group(plan: InstallPlan, state: GroupState, reply: LaunchdReply) -> (turn: LaunchdTurn)
    requires
        InstallState::Grouping(plan, state).accepts(reply),
    ensures
        turn == group_next(plan, state, reply),
        steps::ready(turn),
{
    let user = plan.job.user.clone();
    match (state, reply) {
        (GroupState::Reading, LaunchdReply::Status(result)) => match result {
            Ok(there) => if there {
                go_on(
                    LaunchdOp::CheckMember { user },
                    InstallState::Grouping(plan, GroupState::CheckingMember),
                )
            } else {
                go_on(LaunchdOp::CreateGroup, InstallState::Grouping(plan, GroupState::Creating))
            },
            Err(cause) => LaunchdTurn::Failed(LaunchdError::GroupToolFailed { cause }),
        },
        (GroupState::Creating, LaunchdReply::Done(result)) => match result {
            Ok(_) => go_on(
                LaunchdOp::CheckMember { user },
                InstallState::Grouping(plan, GroupState::CheckingMember),
            ),
            Err(cause) => LaunchdTurn::Failed(LaunchdError::ProgramFailed { cause }),
        },
        (GroupState::CheckingMember, LaunchdReply::Status(result)) => match result {
            Ok(member) => if member {
                go_on(
                    LaunchdOp::GroupId,
                    InstallState::Grouping(plan, GroupState::LookingUp(false)),
                )
            } else {
                go_on(
                    LaunchdOp::AddMember { user },
                    InstallState::Grouping(plan, GroupState::AddingMember),
                )
            },
            Err(cause) => LaunchdTurn::Failed(LaunchdError::MembershipUnknown { cause }),
        },
        (GroupState::AddingMember, LaunchdReply::Done(result)) => match result {
            Ok(_) => go_on(
                LaunchdOp::GroupId,
                InstallState::Grouping(plan, GroupState::LookingUp(true)),
            ),
            Err(cause) => LaunchdTurn::Failed(LaunchdError::ProgramFailed { cause }),
        },
        (GroupState::LookingUp(member_added), LaunchdReply::Gid(gid)) => match gid {
            Some(gid) => ensure_directories(GroupedPlan { plan, gid, member_added }),
            None => LaunchdTurn::Failed(LaunchdError::GroupMissing),
        },
        (_, _) => vstd::pervasive::unreached(),
    }
}

// ---- the directories --------------------------------------------------------

/// How the directories go on from an answer. The log directory is open to all;
/// the socket's directory belongs to the group and is closed to others.
pub open spec fn directory_stepped(
    grouped: GroupedPlan,
    state: DirectoryState,
    reply: LaunchdReply,
    turn: LaunchdTurn,
) -> bool {
    let logs = grouped.plan.job.places.log_dir;
    let socket = grouped.plan.job.places.socket_dir;
    match (state, reply) {
        (DirectoryState::CreatingLogs, LaunchdReply::Done(Ok(_))) => turn == next(
            LaunchdOp::SetMode { path: logs, mode: LOG_DIR_MODE },
            InstallState::MakingDirectories(grouped, DirectoryState::OpeningLogs),
        ),
        (DirectoryState::CreatingLogs, LaunchdReply::Done(Err(cause))) => turn
            == LaunchdTurn::Failed(LaunchdError::CreateFailed { path: logs, cause }),
        (DirectoryState::OpeningLogs, LaunchdReply::Done(Ok(_))) => turn == next(
            LaunchdOp::CreateDir { path: socket },
            InstallState::MakingDirectories(grouped, DirectoryState::CreatingSocket),
        ),
        (DirectoryState::OpeningLogs, LaunchdReply::Done(Err(cause))) => turn
            == LaunchdTurn::Failed(LaunchdError::ChmodFailed { path: logs, cause }),
        (DirectoryState::CreatingSocket, LaunchdReply::Done(Ok(_))) => turn == next(
            LaunchdOp::SetGroup { path: socket, gid: grouped.gid },
            InstallState::MakingDirectories(grouped, DirectoryState::GivingSocket),
        ),
        (DirectoryState::CreatingSocket, LaunchdReply::Done(Err(cause))) => turn
            == LaunchdTurn::Failed(LaunchdError::CreateFailed { path: socket, cause }),
        (DirectoryState::GivingSocket, LaunchdReply::Done(Ok(_))) => turn == next(
            LaunchdOp::SetMode { path: socket, mode: SOCKET_DIR_MODE },
            InstallState::MakingDirectories(grouped, DirectoryState::ClosingSocket),
        ),
        (DirectoryState::GivingSocket, LaunchdReply::Done(Err(cause))) => turn
            == LaunchdTurn::Failed(LaunchdError::ChownFailed { path: socket, cause }),
        (DirectoryState::ClosingSocket, LaunchdReply::Done(Ok(_))) => right_asked(grouped, turn),
        (DirectoryState::ClosingSocket, LaunchdReply::Done(Err(cause))) => turn
            == LaunchdTurn::Failed(LaunchdError::ChmodFailed { path: socket, cause }),
        _ => false,
    }
}

/// Starts to make the directories.
pub fn ensure_directories(grouped: GroupedPlan) -> (turn: LaunchdTurn)
    ensures
        turn == next(
            LaunchdOp::CreateDir { path: grouped.plan.job.places.log_dir },
            InstallState::MakingDirectories(grouped, DirectoryState::CreatingLogs),
        ),
{
    let path = grouped.plan.job.places.log_dir.clone();
    go_on(
        LaunchdOp::CreateDir { path },
        InstallState::MakingDirectories(grouped, DirectoryState::CreatingLogs),
    )
}

fn resume_directories(grouped: GroupedPlan, state: DirectoryState, reply: LaunchdReply) -> (turn:
    LaunchdTurn)
    requires
        InstallState::MakingDirectories(grouped, state).accepts(reply),
    ensures
        directory_stepped(grouped, state, reply, turn),
        steps::ready(turn),
{
    let logs = grouped.plan.job.places.log_dir.clone();
    let socket = grouped.plan.job.places.socket_dir.clone();
    match (state, reply) {
        (DirectoryState::CreatingLogs, LaunchdReply::Done(result)) => match result {
            Ok(_) => go_on(
                LaunchdOp::SetMode { path: logs, mode: LOG_DIR_MODE },
                InstallState::MakingDirectories(grouped, DirectoryState::OpeningLogs),
            ),
            Err(cause) => LaunchdTurn::Failed(LaunchdError::CreateFailed { path: logs, cause }),
        },
        (DirectoryState::OpeningLogs, LaunchdReply::Done(result)) => match result {
            Ok(_) => go_on(
                LaunchdOp::CreateDir { path: socket },
                InstallState::MakingDirectories(grouped, DirectoryState::CreatingSocket),
            ),
            Err(cause) => LaunchdTurn::Failed(LaunchdError::ChmodFailed { path: logs, cause }),
        },
        (DirectoryState::CreatingSocket, LaunchdReply::Done(result)) => match result {
            Ok(_) => {
                let gid: u32 = grouped.gid;
                go_on(
                    LaunchdOp::SetGroup { path: socket, gid },
                    InstallState::MakingDirectories(grouped, DirectoryState::GivingSocket),
                )
            },
            Err(cause) => LaunchdTurn::Failed(LaunchdError::CreateFailed { path: socket, cause }),
        },
        (DirectoryState::GivingSocket, LaunchdReply::Done(result)) => match result {
            Ok(_) => go_on(
                LaunchdOp::SetMode { path: socket, mode: SOCKET_DIR_MODE },
                InstallState::MakingDirectories(grouped, DirectoryState::ClosingSocket),
            ),
            Err(cause) => LaunchdTurn::Failed(LaunchdError::ChownFailed { path: socket, cause }),
        },
        (DirectoryState::ClosingSocket, LaunchdReply::Done(result)) => match result {
            Ok(_) => match register_authorization_right() {
                Ok(op) => go_on(op, InstallState::Registering(grouped)),
                Err(error) => LaunchdTurn::Failed(error),
            },
            Err(cause) => LaunchdTurn::Failed(LaunchdError::ChmodFailed { path: socket, cause }),
        },
        (_, _) => vstd::pervasive::unreached(),
    }
}

// ---- the authorization right ------------------------------------------------

/// The authorization right is to be registered, or the process turns out not to
/// run as root.
pub open spec fn right_asked(grouped: GroupedPlan, turn: LaunchdTurn) -> bool {
    turn == next(LaunchdOp::RegisterRight, InstallState::Registering(grouped)) || turn
        == LaunchdTurn::Failed(LaunchdError::RightNeedsRoot)
}

/// What a process that acts as `euid` does to register the authorization right.
pub fn register_right_as(euid: u32) -> (result: Result<LaunchdOp, LaunchdError>)
    ensures
        result == (if euid == 0 {
            Ok::<LaunchdOp, LaunchdError>(LaunchdOp::RegisterRight)
        } else {
            Err(LaunchdError::RightNeedsRoot)
        }),
{
    if euid != 0 {
        return Err(LaunchdError::RightNeedsRoot);
    }
    Ok(LaunchdOp::RegisterRight)
}

/// Starts to register the authorization right that guards changes to the
/// connection store. An installation does so, and so does every start of the
/// daemon: the policy is always the same one, so doing it again does no harm.
pub fn register_authorization_right() -> (result: Result<LaunchdOp, LaunchdError>)
    ensures
        result == Ok::<LaunchdOp, LaunchdError>(LaunchdOp::RegisterRight) || result == Err::<
            LaunchdOp,
            LaunchdError,
        >(LaunchdError::RightNeedsRoot),
{
    register_right_as(effective_uid())
}

/// What came of the registration: it took the program to start, to end and to
/// end well, and the policy to be taken, in this order of blame.
pub open spec fn registration_failure(registration: Registration) -> Option<LaunchdError> {
    match registration {
        Registration::NotStarted(cause) => Some(LaunchdError::RightToolFailed { cause }),
        Registration::Lost(cause) => Some(LaunchdError::RightToolLost { cause }),
        Registration::Ended { success, status, stderr, written } => if !success {
            Some(LaunchdError::RightRefused { status, stderr })
        } else {
            match written {
                Ok(_) => None,
                Err(cause) => Some(LaunchdError::RightUnwritten { cause }),
            }
        },
    }
}

/// Whether the authorization right was registered, and if not, why.
pub fn authorization_right_registered(registration: Registration) -> (result: Result<
    (),
    LaunchdError,
>)
    ensures
        match result {
            Ok(_) => registration_failure(registration) is None,
            Err(error) => registration_failure(registration) == Some(error),
        },
{
    match registration {
        Registration::NotStarted(cause) => Err(LaunchdError::RightToolFailed { cause }),
        Registration::Lost(cause) => Err(LaunchdError::RightToolLost { cause }),
        Registration::Ended { success, status, stderr, written } => {
            if !success {
                return Err(LaunchdError::RightRefused { status, stderr });
            }
            match written {
                Ok(_) => Ok(()),
                Err(cause) => Err(LaunchdError::RightUnwritten { cause }),
            }
        },
    }
}

// ---- the plist --------------------------------------------------------------

/// The plist is rendered and its draft is to be written, or the template does
/// not yield one.
pub open spec fn draft_begun(grouped: GroupedPlan, turn: LaunchdTurn) -> bool {
    match crate::launchd::plist::rendering(
        grouped.plan.template@,
        grouped.plan.binary@,
        grouped.gid,
    ) {
        Ok(plist) => {
            &&& turn matches LaunchdTurn::Do { note, op: LaunchdOp::WriteDraft { contents }, state }
            &&& contents@ == plist
            &&& note is None
            &&& state == LaunchdState::Install(
                InstallState::WritingPlist(grouped, DraftState::Writing),
            )
        },
        Err(error) => turn == LaunchdTurn::Failed(LaunchdError::Plist(error)),
    }
}

/// The draft did not make it: it is removed, and then the failure is reported.
pub open spec fn draft_dropped(error: LaunchdError) -> LaunchdTurn {
    next(LaunchdOp::RemoveDraft, InstallState::DroppingDraft(error))
}

/// How the plist goes on from an answer. The draft gets its permissions and its
/// owner before it is moved into its place.
pub open spec fn draft_next(
    grouped: GroupedPlan,
    state: DraftState,
    reply: LaunchdReply,
) -> LaunchdTurn {
    match (state, reply) {
        (DraftState::Writing, LaunchdReply::Done(Ok(_))) => next(
            LaunchdOp::SetDraftMode,
            InstallState::WritingPlist(grouped, DraftState::SettingMode),
        ),
        (DraftState::Writing, LaunchdReply::Done(Err(cause))) => draft_dropped(
            LaunchdError::DraftUnwritten { cause },
        ),
        (DraftState::SettingMode, LaunchdReply::Done(Ok(_))) => next(
            LaunchdOp::SetDraftOwner,
            InstallState::WritingPlist(grouped, DraftState::SettingOwner),
        ),
        (DraftState::SettingMode, LaunchdReply::Done(Err(cause))) => draft_dropped(
            LaunchdError::DraftChmodFailed { cause },
        ),
        (DraftState::SettingOwner, LaunchdReply::Done(Ok(_))) => next(
            LaunchdOp::InstallDraft,
            InstallState::WritingPlist(grouped, DraftState::Installing),
        ),
        (DraftState::SettingOwner, LaunchdReply::Done(Err(cause))) => draft_dropped(
            LaunchdError::DraftChownFailed { cause },
        ),
        (DraftState::Installing, LaunchdReply::Done(Err(cause))) => draft_dropped(
            LaunchdError::DraftNotInstalled { cause },
        ),
        _ => next(
            LaunchdOp::Bootout,
            InstallState::Bootstrapping(grouped, BootstrapState::Dropping),
        ),
    }
}

/// Starts to write the plist.
fn write_plist(grouped: GroupedPlan) -> (turn: LaunchdTurn)
    ensures
        draft_begun(grouped, turn),
        steps::ready(turn),
{
    match render_plist_from(
        grouped.plan.template.as_str(),
        grouped.plan.binary.as_str(),
        grouped.gid,
    ) {
        Ok(contents) => go_on(
            LaunchdOp::WriteDraft { contents },
            InstallState::WritingPlist(grouped, DraftState::Writing),
        ),
        Err(error) => LaunchdTurn::Failed(LaunchdError::Plist(error)),
    }
}

fn drop_draft(error: LaunchdError) -> (turn: LaunchdTurn)
    ensures
        turn == draft_dropped(error),
{
    go_on(LaunchdOp::RemoveDraft, InstallState::DroppingDraft(error))
}

fn resume_plist(grouped: GroupedPlan, state: DraftState, reply: LaunchdReply) -> (turn: LaunchdTurn)
    requires
        InstallState::WritingPlist(grouped, state).accepts(reply),
    ensures
        turn == draft_next(grouped, state, reply),
        steps::ready(turn),
{
    match (state, reply) {
        (DraftState::Writing, LaunchdReply::Done(result)) => match result {
            Ok(_) => go_on(
                LaunchdOp::SetDraftMode,
                InstallState::WritingPlist(grouped, DraftState::SettingMode),
            ),
            Err(cause) => drop_draft(LaunchdError::DraftUnwritten { cause }),
        },
        (DraftState::SettingMode, LaunchdReply::Done(result)) => match result {
            Ok(_) => go_on(
                LaunchdOp::SetDraftOwner,
                InstallState::WritingPlist(grouped, DraftState::SettingOwner),
            ),
            Err(cause) => drop_draft(LaunchdError::DraftChmodFailed { cause }),
        },
        (DraftState::SettingOwner, LaunchdReply::Done(result)) => match result {
            Ok(_) => go_on(
                LaunchdOp::InstallDraft,
                InstallState::WritingPlist(grouped, DraftState::Installing),
            ),
            Err(cause) => drop_draft(LaunchdError::DraftChownFailed { cause }),
        },
        (DraftState::Installing, LaunchdReply::Done(result)) => match result {
            Ok(_) => bootstrap(grouped),
            Err(cause) => drop_draft(LaunchdError::DraftNotInstalled { cause }),
        },
        (_, _) => vstd::pervasive::unreached(),
    }
}

// ---- launchd itself ---------------------------------------------------------

/// How launchd goes on from an answer. An instance that runs is dropped, if there
/// is one; then a stale refusal of the daemon is cleared, without which the plist
/// could not be loaded; then it is.
pub open spec fn bootstrap_next(
    grouped: GroupedPlan,
    state: BootstrapState,
    reply: LaunchdReply,
) -> LaunchdTurn {
    match (state, reply) {
        (BootstrapState::Dropping, _) => next(
            LaunchdOp::Enable,
            InstallState::Bootstrapping(grouped, BootstrapState::Enabling),
        ),
        (BootstrapState::Enabling, LaunchdReply::Done(Ok(_))) => next(
            LaunchdOp::Bootstrap,
            InstallState::Bootstrapping(grouped, BootstrapState::Loading),
        ),
        (BootstrapState::Loading, LaunchdReply::Done(Ok(_))) => LaunchdTurn::Done(
            LaunchdReport::Installed {
                binary: grouped.plan.binary,
                template: grouped.plan.job.template_path,
                user: grouped.plan.job.user,
                member_added: grouped.member_added,
            },
        ),
        (_, LaunchdReply::Done(Err(cause))) => LaunchdTurn::Failed(
            LaunchdError::ProgramFailed { cause },
        ),
        _ => arbitrary(),
    }
}

/// Starts to have launchd load the plist.
pub fn bootstrap(grouped: GroupedPlan) -> (turn: LaunchdTurn)
    ensures
        turn == next(
            LaunchdOp::Bootout,
            InstallState::Bootstrapping(grouped, BootstrapState::Dropping),
        ),
{
    go_on(LaunchdOp::Bootout, InstallState::Bootstrapping(grouped, BootstrapState::Dropping))
}

fn resume_bootstrap(grouped: GroupedPlan, state: BootstrapState, reply: LaunchdReply) -> (turn:
    LaunchdTurn)
    requires
        InstallState::Bootstrapping(grouped, state).accepts(reply),
    ensures
        turn == bootstrap_next(grouped, state, reply),
        steps::ready(turn),
{
    match (state, reply) {
        (BootstrapState::Dropping, _) => go_on(
            LaunchdOp::Enable,
            InstallState::Bootstrapping(grouped, BootstrapState::Enabling),
        ),
        (BootstrapState::Enabling, LaunchdReply::Done(result)) => match result {
            Ok(_) => go_on(
                LaunchdOp::Bootstrap,
                InstallState::Bootstrapping(grouped, BootstrapState::Loading),
            ),
            Err(cause) => LaunchdTurn::Failed(LaunchdError::ProgramFailed { cause }),
        },
        (BootstrapState::Loading, LaunchdReply::Done(result)) => match result {
            Ok(_) => LaunchdTurn::Done(
                LaunchdReport::Installed {
                    binary: grouped.plan.binary,
                    template: grouped.plan.job.template_path,
                    user: grouped.plan.job.user,
                    member_added: grouped.member_added,
                },
            ),
            Err(cause) => LaunchdTurn::Failed(LaunchdError::ProgramFailed { cause }),
        },
        (_, _) => vstd::pervasive::unreached(),
    }
}

// ---- the whole --------------------------------------------------------------

/// An installation that goes on from a step of the search for the binary. A path
/// that cannot be written as text cannot stand in a plist; otherwise the template
/// comes next: the user's own, or the one that is built in.
pub open spec fn located(job: InstallJob, step: LocateStep, turn: LaunchdTurn) -> bool {
    match step {
        LocateStep::Ask(op, state) => turn == next(op, InstallState::Locating(job, state)),
        LocateStep::Failed(error) => turn == LaunchdTurn::Failed(error),
        LocateStep::Found(binary) => if !binary.exact() {
            turn == LaunchdTurn::Failed(LaunchdError::NotUtf8 { path: binary.text })
        } else {
            match job.template_path {
                Some(chosen) => {
                    &&& turn matches LaunchdTurn::Do {
                        note: None,
                        op: LaunchdOp::ReadFile { path },
                        state,
                    }
                    &&& path.same(chosen)
                    &&& state == LaunchdState::Install(
                        InstallState::ReadingTemplate(job, binary.text),
                    )
                },
                None => template_known(job, binary.text, PLIST_TEMPLATE@, turn),
            }
        },
    }
}

/// An installation whose template is known: where it yields a plist for the binary
/// the installation goes on to the group, and otherwise it fails before anything is
/// changed.
pub open spec fn template_known(
    job: InstallJob,
    binary: String,
    template: Seq<char>,
    turn: LaunchdTurn,
) -> bool {
    match crate::launchd::plist::refusal(template, binary@) {
        Some(error) => turn == LaunchdTurn::Failed(LaunchdError::Plist(error)),
        None => {
            &&& turn matches LaunchdTurn::Do {
                note: None,
                op: LaunchdOp::ReadGroup,
                state: LaunchdState::Install(InstallState::Grouping(plan, GroupState::Reading)),
            }
            &&& plan.job == job
            &&& plan.binary == binary
            &&& plan.template@ == template
        },
    }
}

/// How an installation goes on from an answer.
pub open spec fn install_stepped(
    state: InstallState,
    reply: LaunchdReply,
    turn: LaunchdTurn,
) -> bool {
    match (state, reply) {
        (InstallState::FindingUser(template_path, places), LaunchdReply::Var(sudo_user)) => {
            if sudo_user matches Some(user) && user@.len() > 0 {
                turn == next(
                    LaunchdOp::CurrentExe,
                    InstallState::Locating(
                        InstallJob { user: sudo_user->0, template_path, places },
                        LocateState::FindingExe,
                    ),
                )
            } else {
                turn == LaunchdTurn::Failed(LaunchdError::NoInvokingUser)
            }
        },
        (InstallState::Locating(job, at), reply) => exists|step: LocateStep| #[trigger]
            crate::launchd::locate::locate_stepped(at, reply, step) && located(job, step, turn),
        (InstallState::ReadingTemplate(job, binary), LaunchdReply::Text(Ok(template))) =>
            template_known(job, binary, template@, turn),
        (InstallState::ReadingTemplate(job, _), LaunchdReply::Text(Err(cause))) => turn
            == LaunchdTurn::Failed(
            LaunchdError::TemplateUnreadable { path: job.template_path->0.text, cause },
        ),
        (InstallState::Grouping(plan, at), reply) => turn == group_next(plan, at, reply),
        (InstallState::MakingDirectories(grouped, at), reply) => directory_stepped(
            grouped,
            at,
            reply,
            turn,
        ),
        (InstallState::Registering(grouped), LaunchdReply::Registered(registration)) => {
            match registration_failure(registration) {
                Some(error) => turn == LaunchdTurn::Failed(error),
                None => draft_begun(grouped, turn),
            }
        },
        (InstallState::WritingPlist(grouped, at), reply) => turn == draft_next(grouped, at, reply),
        (InstallState::DroppingDraft(error), _) => turn == LaunchdTurn::Failed(error),
        (InstallState::Bootstrapping(grouped, at), reply) => turn == bootstrap_next(
            grouped,
            at,
            reply,
        ),
        _ => false,
    }
}

fn with_template(job: InstallJob, binary: String, template: String) -> (turn: LaunchdTurn)
    ensures
        template_known(job, binary, template@, turn),
        steps::ready(turn),
{
    match check_template(template.as_str(), binary.as_str()) {
        Err(error) => LaunchdTurn::Failed(LaunchdError::Plist(error)),
        Ok(_) => ensure_group_with_member(InstallPlan { job, binary, template }),
    }
}

fn from_locating(job: InstallJob, step: LocateStep) -> (turn: LaunchdTurn)
    ensures
        located(job, step, turn),
        !(step is Ask) ==> steps::ready(turn),
{
    match step {
        LocateStep::Ask(op, state) => go_on(op, InstallState::Locating(job, state)),
        LocateStep::Failed(error) => LaunchdTurn::Failed(error),
        LocateStep::Found(binary) => {
            if !binary.is_exact() {
                return LaunchdTurn::Failed(LaunchdError::NotUtf8 { path: binary.text });
            }
            let chosen: Option<PathText> = match &job.template_path {
                Some(path) => Some(path.copy()),
                None => None,
            };
            match chosen {
                Some(path) => go_on(
                    LaunchdOp::ReadFile { path },
                    InstallState::ReadingTemplate(job, binary.text),
                ),
                None => with_template(job, binary.text, PLIST_TEMPLATE.to_string()),
            }
        },
    }
}

/// Goes on with an installation from an answer.
pub fn resume_install(state: InstallState, reply: LaunchdReply) -> (turn: LaunchdTurn)
    requires
        state.accepts(reply),
    ensures
        install_stepped(state, reply, turn),
        steps::ready(turn),
{
    match (state, reply) {
        (InstallState::FindingUser(template_path, places), LaunchdReply::Var(sudo_user)) => {
            match invoking_user(sudo_user) {
                Err(error) => LaunchdTurn::Failed(error),
                Ok(user) => from_locating(
                    InstallJob { user, template_path, places },
                    daemon_binary_path(),
                ),
            }
        },
        (InstallState::Locating(job, at), reply) => from_locating(job, resume_locate(at, reply)),
        (InstallState::ReadingTemplate(job, binary), LaunchdReply::Text(result)) => match result {
            Ok(template) => with_template(job, binary, template),
            Err(cause) => match job.template_path {
                Some(path) => LaunchdTurn::Failed(
                    LaunchdError::TemplateUnreadable { path: path.text, cause },
                ),
                None => vstd::pervasive::unreached(),
            },
        },
        (InstallState::Grouping(plan, at), reply) => resume_group(plan, at, reply),
        (InstallState::MakingDirectories(grouped, at), reply) => resume_directories(
            grouped,
            at,
            reply,
        ),
        (InstallState::Registering(grouped), LaunchdReply::Registered(registration)) => {
            match authorization_right_registered(registration) {
                Err(error) => LaunchdTurn::Failed(error),
                Ok(_) => write_plist(grouped),
            }
        },
        (InstallState::WritingPlist(grouped, at), reply) => resume_plist(grouped, at, reply),
        (InstallState::DroppingDraft(error), _) => LaunchdTurn::Failed(error),
        (InstallState::Bootstrapping(grouped, at), reply) => resume_bootstrap(grouped, at, reply),
        (_, _) => vstd::pervasive::unreached(),
    }
}

} // verus!
