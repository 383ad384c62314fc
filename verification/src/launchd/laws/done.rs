//! What is done on the machine when a command on the daemon says that it is done.

use vstd::prelude::*;

use crate::cli::LaunchdCommand;
use crate::client::{ClientOp, ClientReply};
use crate::launchd;
use crate::launchd::failure::LaunchdError;
use crate::launchd::install::{
    BootstrapState, DirectoryState, DraftState, GroupState, GroupedPlan, InstallJob, InstallPlan,
    InstallState,
};
use crate::launchd::laws;
use crate::launchd::locate::LocateStep;
use crate::launchd::plist;
use crate::launchd::steps::{
    LaunchdNote, LaunchdOp, LaunchdReply, LaunchdReport, LaunchdState, LaunchdTurn, Places,
    Registration,
};
use crate::launchd::uninstall::UninstallState;
use crate::launchd::LaunchdStart;
use crate::paths::PathText;
use crate::privileged_api::{ConnectionScope, ConnectionSummary, DisconnectReason};

verus! {

// ---- who may ----------------------------------------------------------------

/// The commands on the daemon are root's: anybody else is refused at once, with the
/// command to run as root.
pub proof fn daemon_commands_are_roots<A>(
    euid: u32,
    uid: u32,
    command: LaunchdCommand<A>,
    places: Places,
    start: LaunchdStart<A>,
)
    requires
        launchd::taken_up(euid, uid, command, places, start),
        command is Install || command is Restart || command is Uninstall,
    ensures
        start matches LaunchdStart::Daemon(turn) && if euid == 0 {
            laws::asked(turn) == Some(
                match command {
                    LaunchdCommand::Install { .. } => LaunchdOp::ReadSudoUser,
                    LaunchdCommand::Restart => LaunchdOp::CurrentExe,
                    _ => LaunchdOp::Client(
                        ClientOp::List { scope: ConnectionScope::All, autostart: false },
                    ),
                },
            )
        } else {
            turn matches LaunchdTurn::Failed(LaunchdError::NeedsRoot { hint }) && hint@ == (
            match command {
                LaunchdCommand::Install { .. } => "install"@,
                LaunchdCommand::Restart => "restart"@,
                _ => "uninstall"@,
            })
        },
{
}

/// The other commands are handed on as they are: a reload with its arguments, and a
/// command on the session agent to the agent, for the same process.
pub proof fn other_commands_are_handed_on<A>(
    euid: u32,
    uid: u32,
    command: LaunchdCommand<A>,
    places: Places,
    start: LaunchdStart<A>,
)
    requires
        launchd::taken_up(euid, uid, command, places, start),
    ensures
        command matches LaunchdCommand::Reload(args) ==> start == LaunchdStart::Reload(args),
        command matches LaunchdCommand::Agent { command: given } ==> start == LaunchdStart::<
            A,
        >::Agent(crate::session_agent::taken_up(euid, uid, given)),
{
}

// ---- installing -------------------------------------------------------------

proof fn lemma_later(replies: Seq<LaunchdReply>, turns: Seq<LaunchdTurn>, k: int)
    requires
        0 <= k < replies.len(),
    ensures
        forall|op: LaunchdOp, reply: LaunchdReply|
            laws::exchanged(replies, turns, k, op, reply) ==> #[trigger] laws::exchanged(
                replies,
                turns,
                k + 1,
                op,
                reply,
            ),
        forall|op: LaunchdOp|
            laws::carried_out(replies, turns, k, op) ==> #[trigger] laws::carried_out(
                replies,
                turns,
                k + 1,
                op,
            ),
        forall|op: LaunchdOp|
            laws::asked(turns[k]) == Some(op) ==> #[trigger] laws::exchanged(
                replies,
                turns,
                k + 1,
                op,
                replies[k],
            ),
        forall|op: LaunchdOp|
            laws::asked(turns[k]) == Some(op) && (replies[k] matches LaunchdReply::Done(Ok(_)))
                ==> #[trigger] laws::carried_out(replies, turns, k + 1, op),
{
    laws::lemma_exchanged_later(replies, turns, k);
    assert forall|op: LaunchdOp| laws::carried_out(replies, turns, k, op) implies #[trigger]
        laws::carried_out(replies, turns, k + 1, op) by {
        let j = choose|j: int|
            0 <= j < k && laws::asked(#[trigger] turns[j]) == Some(op) && replies[j] matches
                LaunchdReply::Done(Ok(_));
        assert(laws::asked(turns[j]) == Some(op));
    }
    assert forall|op: LaunchdOp| laws::asked(turns[k]) == Some(op) implies #[trigger]
        laws::exchanged(replies, turns, k + 1, op, replies[k]) by {
        assert(laws::asked(turns[k]) == Some(op));
    }
}

/// Before step `k`, the user was named as the one who ran `sudo`.
pub open spec fn named(
    user: String,
    replies: Seq<LaunchdReply>,
    turns: Seq<LaunchdTurn>,
    k: int,
) -> bool {
    laws::exchanged(replies, turns, k, LaunchdOp::ReadSudoUser, LaunchdReply::Var(Some(user)))
}

/// Before step `k`, the template was read from the file that was chosen; without
/// one, it is the one that is built in.
pub open spec fn template_had(
    template: Seq<char>,
    chosen: Option<PathText>,
    replies: Seq<LaunchdReply>,
    turns: Seq<LaunchdTurn>,
    k: int,
) -> bool {
    match chosen {
        None => template == plist::PLIST_TEMPLATE@,
        Some(file) => exists|path: PathText, text: String|
            path.same(file) && text@ == template && #[trigger] laws::exchanged(
                replies,
                turns,
                k,
                LaunchdOp::ReadFile { path },
                LaunchdReply::Text(Ok(text)),
            ),
    }
}

/// Before step `k`, the group was found or created, and has this number; and the
/// user was found to be a member, or was made one.
pub open spec fn group_ready(
    user: String,
    gid: u32,
    member_added: bool,
    replies: Seq<LaunchdReply>,
    turns: Seq<LaunchdTurn>,
    k: int,
) -> bool {
    &&& group_there(replies, turns, k)
    &&& member_there(user, member_added, replies, turns, k)
    &&& laws::exchanged(replies, turns, k, LaunchdOp::GroupId, LaunchdReply::Gid(Some(gid)))
}

/// Before step `k`, the group was found or created.
pub open spec fn group_there(
    replies: Seq<LaunchdReply>,
    turns: Seq<LaunchdTurn>,
    k: int,
) -> bool {
    ||| laws::exchanged(replies, turns, k, LaunchdOp::ReadGroup, LaunchdReply::Status(Ok(true)))
    ||| laws::carried_out(replies, turns, k, LaunchdOp::CreateGroup)
}

/// Before step `k`, the user was found to be a member of the group, or was made one.
pub open spec fn member_there(
    user: String,
    member_added: bool,
    replies: Seq<LaunchdReply>,
    turns: Seq<LaunchdTurn>,
    k: int,
) -> bool {
    if member_added {
        laws::carried_out(replies, turns, k, LaunchdOp::AddMember { user })
    } else {
        laws::exchanged(
            replies,
            turns,
            k,
            LaunchdOp::CheckMember { user },
            LaunchdReply::Status(Ok(true)),
        )
    }
}

/// Before step `k`, the log directory was made and opened to all.
pub open spec fn logs_ready(
    places: Places,
    replies: Seq<LaunchdReply>,
    turns: Seq<LaunchdTurn>,
    k: int,
) -> bool {
    &&& laws::carried_out(replies, turns, k, LaunchdOp::CreateDir { path: places.log_dir })
    &&& laws::carried_out(
        replies,
        turns,
        k,
        LaunchdOp::SetMode { path: places.log_dir, mode: 0o755 },
    )
}

/// Before step `k`, the socket's directory was made, given to the group, and closed
/// to others.
pub open spec fn socket_ready(
    places: Places,
    gid: u32,
    replies: Seq<LaunchdReply>,
    turns: Seq<LaunchdTurn>,
    k: int,
) -> bool {
    &&& laws::carried_out(replies, turns, k, LaunchdOp::CreateDir { path: places.socket_dir })
    &&& laws::carried_out(
        replies,
        turns,
        k,
        LaunchdOp::SetGroup { path: places.socket_dir, gid },
    )
    &&& laws::carried_out(
        replies,
        turns,
        k,
        LaunchdOp::SetMode { path: places.socket_dir, mode: 0o750 },
    )
}

/// The program that registers the right ended well, and took the policy.
pub open spec fn registers(reply: LaunchdReply) -> bool {
    reply matches LaunchdReply::Registered(Registration::Ended { success, written, .. }) && success
        && written is Ok
}

/// Before step `k`, the authorization right was registered.
pub open spec fn right_ready(
    replies: Seq<LaunchdReply>,
    turns: Seq<LaunchdTurn>,
    k: int,
) -> bool {
    exists|reply: LaunchdReply| #[trigger]
        laws::exchanged(replies, turns, k, LaunchdOp::RegisterRight, reply) && registers(reply)
}

/// Before step `k`, the plist that the template yields for the binary and the group
/// was written.
pub open spec fn plist_written(
    template: Seq<char>,
    binary: Seq<char>,
    gid: u32,
    replies: Seq<LaunchdReply>,
    turns: Seq<LaunchdTurn>,
    k: int,
) -> bool {
    exists|contents: String| #[trigger]
        laws::carried_out(replies, turns, k, LaunchdOp::WriteDraft { contents })
            && plist::rendering(template, binary, gid) == Ok::<Seq<char>, plist::PlistError>(
            contents@,
        )
}

/// Before step `k`, the plist got its permissions and its owner and was moved into its
/// place.
pub open spec fn plist_in_place(
    replies: Seq<LaunchdReply>,
    turns: Seq<LaunchdTurn>,
    k: int,
) -> bool {
    &&& laws::carried_out(replies, turns, k, LaunchdOp::SetDraftMode)
    &&& laws::carried_out(replies, turns, k, LaunchdOp::SetDraftOwner)
    &&& laws::carried_out(replies, turns, k, LaunchdOp::InstallDraft)
}

spec fn job_known(
    chosen: Option<PathText>,
    places: Places,
    job: InstallJob,
    replies: Seq<LaunchdReply>,
    turns: Seq<LaunchdTurn>,
    k: int,
) -> bool {
    &&& job.template_path == chosen
    &&& job.places == places
    &&& named(job.user, replies, turns, k)
}

spec fn plan_known(
    chosen: Option<PathText>,
    places: Places,
    plan: InstallPlan,
    replies: Seq<LaunchdReply>,
    turns: Seq<LaunchdTurn>,
    k: int,
) -> bool {
    &&& job_known(chosen, places, plan.job, replies, turns, k)
    &&& template_had(plan.template@, chosen, replies, turns, k)
}

spec fn grouped_known(
    chosen: Option<PathText>,
    places: Places,
    grouped: GroupedPlan,
    replies: Seq<LaunchdReply>,
    turns: Seq<LaunchdTurn>,
    k: int,
) -> bool {
    &&& plan_known(chosen, places, grouped.plan, replies, turns, k)
    &&& group_ready(grouped.plan.job.user, grouped.gid, grouped.member_added, replies, turns, k)
}

spec fn furnished(
    chosen: Option<PathText>,
    places: Places,
    grouped: GroupedPlan,
    replies: Seq<LaunchdReply>,
    turns: Seq<LaunchdTurn>,
    k: int,
) -> bool {
    &&& grouped_known(chosen, places, grouped, replies, turns, k)
    &&& logs_ready(places, replies, turns, k)
    &&& socket_ready(places, grouped.gid, replies, turns, k)
}

spec fn directories_on_course(
    places: Places,
    gid: u32,
    at: DirectoryState,
    op: LaunchdOp,
    replies: Seq<LaunchdReply>,
    turns: Seq<LaunchdTurn>,
    k: int,
) -> bool {
    match at {
        DirectoryState::CreatingLogs => op == (LaunchdOp::CreateDir { path: places.log_dir }),
        DirectoryState::OpeningLogs => {
            &&& op == (LaunchdOp::SetMode { path: places.log_dir, mode: 0o755 })
            &&& laws::carried_out(
                replies,
                turns,
                k,
                LaunchdOp::CreateDir { path: places.log_dir },
            )
        },
        DirectoryState::CreatingSocket => {
            &&& op == (LaunchdOp::CreateDir { path: places.socket_dir })
            &&& logs_ready(places, replies, turns, k)
        },
        DirectoryState::GivingSocket => {
            &&& op == (LaunchdOp::SetGroup { path: places.socket_dir, gid })
            &&& logs_ready(places, replies, turns, k)
            &&& laws::carried_out(
                replies,
                turns,
                k,
                LaunchdOp::CreateDir { path: places.socket_dir },
            )
        },
        DirectoryState::ClosingSocket => {
            &&& op == (LaunchdOp::SetMode { path: places.socket_dir, mode: 0o750 })
            &&& logs_ready(places, replies, turns, k)
            &&& laws::carried_out(
                replies,
                turns,
                k,
                LaunchdOp::CreateDir { path: places.socket_dir },
            )
            &&& laws::carried_out(
                replies,
                turns,
                k,
                LaunchdOp::SetGroup { path: places.socket_dir, gid },
            )
        },
    }
}

spec fn plist_on_course(
    grouped: GroupedPlan,
    at: DraftState,
    op: LaunchdOp,
    replies: Seq<LaunchdReply>,
    turns: Seq<LaunchdTurn>,
    k: int,
) -> bool {
    let written = plist_written(
        grouped.plan.template@,
        grouped.plan.binary@,
        grouped.gid,
        replies,
        turns,
        k,
    );
    match at {
        DraftState::Writing => op matches LaunchdOp::WriteDraft { contents } && plist::rendering(
            grouped.plan.template@,
            grouped.plan.binary@,
            grouped.gid,
        ) == Ok::<Seq<char>, plist::PlistError>(contents@),
        DraftState::SettingMode => op is SetDraftMode && written,
        DraftState::SettingOwner => {
            &&& op is SetDraftOwner
            &&& written
            &&& laws::carried_out(replies, turns, k, LaunchdOp::SetDraftMode)
        },
        DraftState::Installing => {
            &&& op is InstallDraft
            &&& written
            &&& laws::carried_out(replies, turns, k, LaunchdOp::SetDraftMode)
            &&& laws::carried_out(replies, turns, k, LaunchdOp::SetDraftOwner)
        },
    }
}

spec fn progress(
    chosen: Option<PathText>,
    places: Places,
    replies: Seq<LaunchdReply>,
    turns: Seq<LaunchdTurn>,
    k: int,
) -> bool {
    match turns[k] {
        LaunchdTurn::Do { note: _, op, state: LaunchdState::Install(state) } => match state {
            InstallState::FindingUser(template_path, told) => {
                &&& op is ReadSudoUser
                &&& template_path == chosen
                &&& told == places
            },
            InstallState::Locating(job, _) => job_known(chosen, places, job, replies, turns, k),
            InstallState::ReadingTemplate(job, _) => {
                &&& job_known(chosen, places, job, replies, turns, k)
                &&& chosen matches Some(file) && (op matches LaunchdOp::ReadFile { path }
                    && path.same(file))
            },
            InstallState::Grouping(plan, at) => {
                &&& plan_known(chosen, places, plan, replies, turns, k)
                &&& match at {
                    GroupState::Reading => op is ReadGroup,
                    GroupState::Creating => op is CreateGroup,
                    GroupState::CheckingMember => {
                        &&& op == (LaunchdOp::CheckMember { user: plan.job.user })
                        &&& group_there(replies, turns, k)
                    },
                    GroupState::AddingMember => {
                        &&& op == (LaunchdOp::AddMember { user: plan.job.user })
                        &&& group_there(replies, turns, k)
                    },
                    GroupState::LookingUp(member_added) => {
                        &&& op is GroupId
                        &&& group_there(replies, turns, k)
                        &&& member_there(plan.job.user, member_added, replies, turns, k)
                    },
                }
            },
            InstallState::MakingDirectories(grouped, at) => {
                &&& grouped_known(chosen, places, grouped, replies, turns, k)
                &&& directories_on_course(places, grouped.gid, at, op, replies, turns, k)
            },
            InstallState::Registering(grouped) => {
                &&& furnished(chosen, places, grouped, replies, turns, k)
                &&& op is RegisterRight
            },
            InstallState::WritingPlist(grouped, at) => {
                &&& furnished(chosen, places, grouped, replies, turns, k)
                &&& right_ready(replies, turns, k)
                &&& plist_on_course(grouped, at, op, replies, turns, k)
            },
            InstallState::DroppingDraft(_) => op is RemoveDraft,
            InstallState::Bootstrapping(grouped, at) => {
                &&& furnished(chosen, places, grouped, replies, turns, k)
                &&& right_ready(replies, turns, k)
                &&& plist_written(
                    grouped.plan.template@,
                    grouped.plan.binary@,
                    grouped.gid,
                    replies,
                    turns,
                    k,
                )
                &&& plist_in_place(replies, turns, k)
                &&& match at {
                    BootstrapState::Dropping => op is Bootout,
                    BootstrapState::Enabling => op is Enable,
                    BootstrapState::Loading => op is Bootstrap && laws::carried_out(
                        replies,
                        turns,
                        k,
                        LaunchdOp::Enable,
                    ),
                }
            },
        },
        LaunchdTurn::Do { .. } => false,
        LaunchdTurn::Done(report) => report matches LaunchdReport::Installed {
            binary,
            template,
            user,
            member_added,
        } && template == chosen && installed(
            chosen,
            places,
            binary,
            user,
            member_added,
            replies,
            turns,
            k,
        ),
        LaunchdTurn::Failed(_) => true,
    }
}

/// Before step `k`, the daemon was installed for the user, with the binary: the group
/// is there and the user a member of it, the directories are there with their
/// permissions, the authorization right is registered, the plist that the template
/// yields for the binary and the group is in its place, and launchd loaded it.
pub open spec fn installed(
    chosen: Option<PathText>,
    places: Places,
    binary: String,
    user: String,
    member_added: bool,
    replies: Seq<LaunchdReply>,
    turns: Seq<LaunchdTurn>,
    k: int,
) -> bool {
    &&& named(user, replies, turns, k)
    &&& logs_ready(places, replies, turns, k)
    &&& right_ready(replies, turns, k)
    &&& plist_in_place(replies, turns, k)
    &&& laws::carried_out(replies, turns, k, LaunchdOp::Enable)
    &&& laws::carried_out(replies, turns, k, LaunchdOp::Bootstrap)
    &&& exists|template: Seq<char>, gid: u32|
        {
            &&& template_had(template, chosen, replies, turns, k)
            &&& group_ready(user, gid, member_added, replies, turns, k)
            &&& socket_ready(places, gid, replies, turns, k)
            &&& #[trigger] plist_written(template, binary@, gid, replies, turns, k)
        }
}

/// What is known stays known.
proof fn lemma_known_later(
    chosen: Option<PathText>,
    template: Seq<char>,
    binary: Seq<char>,
    gid: u32,
    replies: Seq<LaunchdReply>,
    turns: Seq<LaunchdTurn>,
    k: int,
)
    requires
        0 <= k < replies.len(),
    ensures
        template_had(template, chosen, replies, turns, k) ==> template_had(
            template,
            chosen,
            replies,
            turns,
            k + 1,
        ),
        right_ready(replies, turns, k) ==> right_ready(replies, turns, k + 1),
        plist_written(template, binary, gid, replies, turns, k) ==> plist_written(
            template,
            binary,
            gid,
            replies,
            turns,
            k + 1,
        ),
{
    lemma_later(replies, turns, k);
    if template_had(template, chosen, replies, turns, k) && chosen is Some {
        let (path, text) = choose|path: PathText, text: String|
            path.same(chosen->0) && text@ == template && #[trigger] laws::exchanged(
                replies,
                turns,
                k,
                LaunchdOp::ReadFile { path },
                LaunchdReply::Text(Ok(text)),
            );
        assert(laws::exchanged(
            replies,
            turns,
            k + 1,
            LaunchdOp::ReadFile { path },
            LaunchdReply::Text(Ok(text)),
        ));
    }
    if right_ready(replies, turns, k) {
        let reply = choose|reply: LaunchdReply| #[trigger]
            laws::exchanged(replies, turns, k, LaunchdOp::RegisterRight, reply) && registers(reply);
        assert(laws::exchanged(replies, turns, k + 1, LaunchdOp::RegisterRight, reply));
    }
    if plist_written(template, binary, gid, replies, turns, k) {
        let contents = choose|contents: String| #[trigger]
            laws::carried_out(replies, turns, k, LaunchdOp::WriteDraft { contents })
                && plist::rendering(template, binary, gid) == Ok::<Seq<char>, plist::PlistError>(
                contents@,
            );
        assert(laws::carried_out(replies, turns, k + 1, LaunchdOp::WriteDraft { contents }));
    }
}

#[verifier::rlimit(40)]
proof fn lemma_progress(
    chosen: Option<PathText>,
    places: Places,
    replies: Seq<LaunchdReply>,
    turns: Seq<LaunchdTurn>,
    k: int,
)
    requires
        laws::course(launchd::install::install_begun(chosen, places), replies, turns),
        0 <= k < turns.len(),
    ensures
        progress(chosen, places, replies, turns, k),
    decreases k,
{
    if k > 0 {
        let p = k - 1;
        lemma_progress(chosen, places, replies, turns, p);
        assert(laws::went_on(turns[p], replies[p], turns[p + 1]));
        lemma_later(replies, turns, p);
        if let LaunchdTurn::Do { note: _, op, state: LaunchdState::Install(state) } = turns[p] {
            assert(laws::exchanged(replies, turns, k, op, replies[p]));
            match state {
                InstallState::FindingUser(_, _) => {
                    assert(progress(chosen, places, replies, turns, k));
                },
                InstallState::Locating(job, at) => {
                    let step = choose|step: LocateStep| #[trigger]
                        launchd::locate::locate_stepped(at, replies[p], step)
                            && launchd::install::located(job, step, turns[k]);
                    assert(progress(chosen, places, replies, turns, k));
                },
                InstallState::ReadingTemplate(_, _) => {
                    assert(progress(chosen, places, replies, turns, k));
                },
                InstallState::Grouping(plan, _) => {
                    lemma_known_later(chosen, plan.template@, plan.binary@, 0, replies, turns, p);
                    assert(progress(chosen, places, replies, turns, k));
                },
                InstallState::MakingDirectories(grouped, _) => {
                    let plan = grouped.plan;
                    lemma_known_later(chosen, plan.template@, plan.binary@, 0, replies, turns, p);
                    assert(progress(chosen, places, replies, turns, k));
                },
                InstallState::Registering(grouped) => {
                    let plan = grouped.plan;
                    lemma_known_later(chosen, plan.template@, plan.binary@, 0, replies, turns, p);
                    assert(progress(chosen, places, replies, turns, k));
                },
                InstallState::WritingPlist(grouped, at) => {
                    let plan = grouped.plan;
                    lemma_known_later(
                        chosen,
                        plan.template@,
                        plan.binary@,
                        grouped.gid,
                        replies,
                        turns,
                        p,
                    );
                    if let LaunchdOp::WriteDraft { contents } = op {
                        assert(replies[p] matches LaunchdReply::Done(Ok(_)) ==> laws::carried_out(
                            replies,
                            turns,
                            k,
                            LaunchdOp::WriteDraft { contents },
                        ));
                    }
                    assert(progress(chosen, places, replies, turns, k));
                },
                InstallState::DroppingDraft(_) => {},
                InstallState::Bootstrapping(grouped, _) => {
                    let plan = grouped.plan;
                    lemma_known_later(
                        chosen,
                        plan.template@,
                        plan.binary@,
                        grouped.gid,
                        replies,
                        turns,
                        p,
                    );
                    assert(progress(chosen, places, replies, turns, k));
                },
            }
        }
    }
}

/// An installation that says it is done is: everything that belongs to it was done,
/// for the user who ran `sudo`, with the binary that was found fit to run as root and
/// with the template that was chosen; and it says whether it made the user a member
/// of the group.
pub proof fn installation_is_complete(
    chosen: Option<PathText>,
    places: Places,
    replies: Seq<LaunchdReply>,
    turns: Seq<LaunchdTurn>,
    k: int,
    report: LaunchdReport,
)
    requires
        laws::course(launchd::install::install_begun(chosen, places), replies, turns),
        0 <= k < turns.len(),
        turns[k] == LaunchdTurn::Done(report),
    ensures
        report matches LaunchdReport::Installed { binary, template, user, member_added } && {
            &&& template == chosen
            &&& user@.len() > 0
            &&& laws::fit_for_root(binary, replies, turns, k)
            &&& installed(chosen, places, binary, user, member_added, replies, turns, k)
        },
{
    lemma_progress(chosen, places, replies, turns, k);
    let p = k - 1;
    laws::lemma_install(chosen, places, replies, turns, p);
    assert(laws::went_on(turns[p], replies[p], turns[p + 1]));
    if let LaunchdReport::Installed { binary, .. } = report {
        laws::lemma_fit_later(binary, replies, turns, p);
    }
}

// ---- restarting -------------------------------------------------------------

/// A restart that says it is done is: launchd restarted the daemon.
pub proof fn restart_is_complete(
    replies: Seq<LaunchdReply>,
    turns: Seq<LaunchdTurn>,
    k: int,
    report: LaunchdReport,
)
    requires
        laws::course(launchd::restart::restart_begun(), replies, turns),
        0 <= k < turns.len(),
        turns[k] == LaunchdTurn::Done(report),
    ensures
        report is Restarted,
        laws::carried_out(replies, turns, k, LaunchdOp::Kickstart),
{
    let p = k - 1;
    laws::lemma_restart(replies, turns, p);
    assert(laws::went_on(turns[p], replies[p], turns[p + 1]));
    lemma_later(replies, turns, p);
}

// ---- uninstalling -----------------------------------------------------------

/// Before step `k`, `op` was asked for.
pub open spec fn was_asked(turns: Seq<LaunchdTurn>, k: int, op: LaunchdOp) -> bool {
    exists|j: int| 0 <= j < k && laws::asked(#[trigger] turns[j]) == Some(op)
}

spec fn leaving(
    places: Places,
    replies: Seq<LaunchdReply>,
    turns: Seq<LaunchdTurn>,
    k: int,
) -> bool {
    match turns[k] {
        LaunchdTurn::Do { note: _, op, state: LaunchdState::Uninstall(state) } => match state {
            UninstallState::Listing { places: told, left: _ } => {
                &&& told == places
                &&& op == LaunchdOp::Client(
                    ClientOp::List { scope: ConnectionScope::All, autostart: false },
                )
            },
            UninstallState::Disconnecting { places: told, left: _, ids: _, at: _ } => {
                &&& told == places
                &&& op matches LaunchdOp::Client(ClientOp::Disconnect { .. })
            },
            UninstallState::Dropping(told) => told == places && op is Bootout,
            UninstallState::Disabling(told) => {
                &&& told == places
                &&& op is Disable
                &&& was_asked(turns, k, LaunchdOp::Bootout)
            },
            UninstallState::RemovingPlist(told) => {
                &&& told == places
                &&& op is RemovePlist
                &&& was_asked(turns, k, LaunchdOp::Bootout)
                &&& was_asked(turns, k, LaunchdOp::Disable)
            },
            UninstallState::RemovingSocket(told) => {
                &&& told == places
                &&& op == (LaunchdOp::RemoveSocket { path: places.socket_path })
                &&& was_asked(turns, k, LaunchdOp::Bootout)
                &&& was_asked(turns, k, LaunchdOp::Disable)
                &&& laws::carried_out(replies, turns, k, LaunchdOp::RemovePlist)
            },
        },
        LaunchdTurn::Do { .. } => false,
        LaunchdTurn::Done(report) => {
            &&& report == (LaunchdReport::Uninstalled {
                log_dir: places.log_dir,
                socket_dir: places.socket_dir,
            })
            &&& was_asked(turns, k, LaunchdOp::Bootout)
            &&& was_asked(turns, k, LaunchdOp::Disable)
            &&& laws::carried_out(replies, turns, k, LaunchdOp::RemovePlist)
            &&& laws::carried_out(
                replies,
                turns,
                k,
                LaunchdOp::RemoveSocket { path: places.socket_path },
            )
        },
        LaunchdTurn::Failed(_) => true,
    }
}

proof fn lemma_asked_later(turns: Seq<LaunchdTurn>, k: int)
    ensures
        forall|op: LaunchdOp|
            was_asked(turns, k, op) ==> #[trigger] was_asked(turns, k + 1, op),
        forall|op: LaunchdOp|
            k >= 0 && laws::asked(turns[k]) == Some(op) ==> #[trigger] was_asked(turns, k + 1, op),
{
    assert forall|op: LaunchdOp| was_asked(turns, k, op) implies #[trigger] was_asked(
        turns,
        k + 1,
        op,
    ) by {
        let j = choose|j: int| 0 <= j < k && laws::asked(#[trigger] turns[j]) == Some(op);
        assert(laws::asked(turns[j]) == Some(op));
    }
    assert forall|op: LaunchdOp| k >= 0 && laws::asked(turns[k]) == Some(op) implies #[trigger]
        was_asked(turns, k + 1, op) by {
        assert(laws::asked(turns[k]) == Some(op));
    }
}

proof fn lemma_leaving(
    places: Places,
    replies: Seq<LaunchdReply>,
    turns: Seq<LaunchdTurn>,
    k: int,
)
    requires
        laws::course(launchd::uninstall::uninstall_begun(places), replies, turns),
        0 <= k < turns.len(),
    ensures
        leaving(places, replies, turns, k),
    decreases k,
{
    if k > 0 {
        let p = k - 1;
        lemma_leaving(places, replies, turns, p);
        assert(laws::went_on(turns[p], replies[p], turns[p + 1]));
        lemma_later(replies, turns, p);
        lemma_asked_later(turns, p);
    }
}

/// An uninstallation that says it is done is: launchd was told to drop the daemon and
/// to refuse it from now on, and the plist and the daemon's socket were removed. It
/// says what it left behind.
pub proof fn uninstallation_is_complete(
    places: Places,
    replies: Seq<LaunchdReply>,
    turns: Seq<LaunchdTurn>,
    k: int,
    report: LaunchdReport,
)
    requires
        laws::course(launchd::uninstall::uninstall_begun(places), replies, turns),
        0 <= k < turns.len(),
        turns[k] == LaunchdTurn::Done(report),
    ensures
        report == (LaunchdReport::Uninstalled {
            log_dir: places.log_dir,
            socket_dir: places.socket_dir,
        }),
        was_asked(turns, k, LaunchdOp::Bootout),
        was_asked(turns, k, LaunchdOp::Disable),
        laws::carried_out(replies, turns, k, LaunchdOp::RemovePlist),
        laws::carried_out(
            replies,
            turns,
            k,
            LaunchdOp::RemoveSocket { path: places.socket_path },
        ),
{
    lemma_leaving(places, replies, turns, k);
}

/// The listed connections that are up.
pub open spec fn ups(list: Seq<ConnectionSummary>) -> Seq<ConnectionSummary> {
    list.filter(|conn: ConnectionSummary| conn.connected)
}

proof fn lemma_ups(list: Seq<ConnectionSummary>)
    ensures
        crate::client::connected_ids(list).len() == ups(list).len(),
        forall|i: int|
            0 <= i < ups(list).len() ==> #[trigger] crate::client::connected_ids(list)[i] == ups(
                list,
            )[i].id,
    decreases list.len(),
{
    reveal(Seq::filter);
    if list.len() > 0 {
        lemma_ups(list.drop_last());
    }
}

/// An uninstallation asks for everybody's connections, and for each that is listed as
/// up to be taken down, in their order, because the daemon goes away.
pub proof fn uninstallation_takes_each_down(
    places: Places,
    replies: Seq<LaunchdReply>,
    turns: Seq<LaunchdTurn>,
    k: int,
    list: Vec<ConnectionSummary>,
    n: int,
)
    requires
        laws::course(launchd::uninstall::uninstall_begun(places), replies, turns),
        0 <= k < replies.len(),
        replies[k] == LaunchdReply::Client(ClientReply::Listed(Ok(list))),
        0 <= n < ups(list@).len(),
        k + 1 + n < turns.len(),
    ensures
        laws::asked(turns[k]) == Some(
            LaunchdOp::Client(ClientOp::List { scope: ConnectionScope::All, autostart: false }),
        ),
        laws::asked(turns[k + 1 + n]) == Some(
            LaunchdOp::Client(
                ClientOp::Disconnect {
                    id: ups(list@)[n].id,
                    reason: DisconnectReason::SessionTeardown,
                    autostart: false,
                },
            ),
        ),
{
    lemma_ups(list@);
    lemma_leaving(places, replies, turns, k);
    assert(laws::went_on(turns[k], replies[k], turns[k + 1]));
    laws::lemma_sweep(places, replies, turns, k, list, n);
}

// ---- failing ----------------------------------------------------------------

/// What is blamed when an operation is answered by this reply, if it failed.
pub open spec fn blamed(op: LaunchdOp, reply: LaunchdReply) -> Option<LaunchdError> {
    match reply {
        LaunchdReply::Path(Err(cause)) => match op {
            LaunchdOp::Canonicalize { path } => Some(
                LaunchdError::Unresolved { path: path.text, cause },
            ),
            _ => Some(LaunchdError::ExeUnknown { cause }),
        },
        LaunchdReply::Text(Err(cause)) => match op {
            LaunchdOp::ReadFile { path } => Some(
                LaunchdError::TemplateUnreadable { path: path.text, cause },
            ),
            _ => None,
        },
        LaunchdReply::Status(Err(cause)) => if op is ReadGroup {
            Some(LaunchdError::GroupToolFailed { cause })
        } else {
            Some(LaunchdError::MembershipUnknown { cause })
        },
        LaunchdReply::Gid(None) => Some(LaunchdError::GroupMissing),
        LaunchdReply::Registered(registration) => match registration {
            Registration::NotStarted(cause) => Some(LaunchdError::RightToolFailed { cause }),
            Registration::Lost(cause) => Some(LaunchdError::RightToolLost { cause }),
            Registration::Ended { success, status, stderr, written } => if !success {
                Some(LaunchdError::RightRefused { status, stderr })
            } else {
                match written {
                    Ok(_) => None,
                    Err(cause) => Some(LaunchdError::RightUnwritten { cause }),
                }
            },
        },
        LaunchdReply::Done(Err(cause)) => match op {
            LaunchdOp::CheckRootOwned { path: _ } => Some(LaunchdError::Untrusted { cause }),
            LaunchdOp::CreateDir { path } => Some(LaunchdError::CreateFailed { path, cause }),
            LaunchdOp::SetMode { path, mode: _ } => Some(LaunchdError::ChmodFailed { path, cause }),
            LaunchdOp::SetGroup { path, gid: _ } => Some(LaunchdError::ChownFailed { path, cause }),
            LaunchdOp::WriteDraft { contents: _ } => Some(LaunchdError::DraftUnwritten { cause }),
            LaunchdOp::SetDraftMode => Some(LaunchdError::DraftChmodFailed { cause }),
            LaunchdOp::SetDraftOwner => Some(LaunchdError::DraftChownFailed { cause }),
            LaunchdOp::InstallDraft => Some(LaunchdError::DraftNotInstalled { cause }),
            LaunchdOp::Kickstart => Some(LaunchdError::DaemonMissing { cause }),
            LaunchdOp::RemovePlist => Some(LaunchdError::RemoveFailed { cause }),
            LaunchdOp::RemoveSocket { path: _ } => Some(LaunchdError::RemoveFailed { cause }),
            LaunchdOp::Bootout => None,
            LaunchdOp::Disable => None,
            LaunchdOp::RemoveDraft => None,
            _ => Some(LaunchdError::ProgramFailed { cause }),
        },
        _ => None,
    }
}

/// The operation works on the plist next to its place.
pub open spec fn on_draft(op: LaunchdOp) -> bool {
    op is WriteDraft || op is SetDraftMode || op is SetDraftOwner || op is InstallDraft
}

/// What the search for the binary asked for agrees with what it is waiting for.
proof fn lemma_locating(
    chosen: Option<PathText>,
    places: Places,
    replies: Seq<LaunchdReply>,
    turns: Seq<LaunchdTurn>,
    k: int,
)
    requires
        laws::course(launchd::install::install_begun(chosen, places), replies, turns),
        0 <= k < turns.len(),
    ensures
        turns[k] matches LaunchdTurn::Do {
            note: _,
            op,
            state: LaunchdState::Install(InstallState::Locating(_, at)),
        } ==> at.asks(op),
{
    laws::lemma_install(chosen, places, replies, turns, k);
}

/// A failure ends an installation, and it is told of. Where the plist was being put
/// together, what was written of it is removed first.
pub proof fn installation_failures_are_told(
    chosen: Option<PathText>,
    places: Places,
    replies: Seq<LaunchdReply>,
    turns: Seq<LaunchdTurn>,
    k: int,
    op: LaunchdOp,
    error: LaunchdError,
)
    requires
        laws::course(launchd::install::install_begun(chosen, places), replies, turns),
        0 <= k < replies.len(),
        laws::asked(turns[k]) == Some(op),
        blamed(op, replies[k]) == Some(error),
    ensures
        !on_draft(op) ==> turns[k + 1] == LaunchdTurn::Failed(error),
        on_draft(op) ==> laws::asked(turns[k + 1]) == Some(LaunchdOp::RemoveDraft) && (k + 1
            < replies.len() ==> turns[k + 2] == LaunchdTurn::Failed(error)),
{
    lemma_progress(chosen, places, replies, turns, k);
    lemma_locating(chosen, places, replies, turns, k);
    assert(laws::went_on(turns[k], replies[k], turns[k + 1]));
    if k + 1 < replies.len() {
        assert(laws::went_on(turns[k + 1], replies[k + 1], turns[k + 2]));
    }
    if let LaunchdTurn::Do {
        note: _,
        op: _,
        state: LaunchdState::Install(InstallState::Locating(job, at)),
    } = turns[k] {
        let step = choose|step: LocateStep| #[trigger]
            launchd::locate::locate_stepped(at, replies[k], step) && launchd::install::located(
                job,
                step,
                turns[k + 1],
            );
        assert(step == LocateStep::Failed(error));
    }
}

/// An installation fails only for a cause: a failure that was met; nobody named as the
/// one who ran `sudo`; a binary within the reach of ordinary users, or with a path that
/// no plist can hold; a template that yields no plist; or a process that turned out not
/// to run as root when the right was to be registered.
pub proof fn installations_fail_only_for_a_cause(
    chosen: Option<PathText>,
    places: Places,
    replies: Seq<LaunchdReply>,
    turns: Seq<LaunchdTurn>,
    k: int,
    op: LaunchdOp,
    error: LaunchdError,
)
    requires
        laws::course(launchd::install::install_begun(chosen, places), replies, turns),
        0 <= k < replies.len(),
        laws::asked(turns[k]) == Some(op),
        turns[k + 1] == LaunchdTurn::Failed(error),
        blamed(op, replies[k]) is None,
        !(op is RemoveDraft),
    ensures
        match error {
            LaunchdError::NoInvokingUser => {
                &&& op is ReadSudoUser
                &&& replies[k] matches LaunchdReply::Var(named) && (named matches Some(user)
                    ==> user@.len() == 0)
            },
            LaunchdError::Location(fault) => {
                &&& op is ReadSudoUser || op is HomeOf
                &&& exists|invoked: PathText, resolved: PathText, home: Option<PathText>|
                    {
                        &&& laws::resolved_as(invoked, resolved, replies, turns, k)
                        &&& laws::home_learnt(home, replies, turns, k + 1)
                        &&& #[trigger] launchd::location::location_fault(invoked, resolved, home)
                            == Some((fault.fault, fault.path@))
                    }
            },
            LaunchdError::NotUtf8 { path: shown } => op matches LaunchdOp::CheckRootOwned { path }
                && !path.exact() && shown == path.text,
            LaunchdError::Plist(refusal) => op is CheckRootOwned || op is ReadFile,
            LaunchdError::RightNeedsRoot => op matches LaunchdOp::SetMode { path, mode: _ } && path
                == places.socket_dir,
            _ => false,
        },
{
    lemma_progress(chosen, places, replies, turns, k);
    lemma_locating(chosen, places, replies, turns, k);
    laws::lemma_install(chosen, places, replies, turns, k);
    laws::lemma_install(chosen, places, replies, turns, k + 1);
    lemma_later(replies, turns, k);
    assert(laws::went_on(turns[k], replies[k], turns[k + 1]));
    if error is Plist {
        assert(laws::asked(turns[k]) == Some(op));
        assert(launchd::steps::only_reads(op));
    }
    if let LaunchdTurn::Do {
        note: _,
        op: _,
        state: LaunchdState::Install(InstallState::Locating(job, at)),
    } = turns[k] {
        let step = choose|step: LocateStep| #[trigger]
            launchd::locate::locate_stepped(at, replies[k], step) && launchd::install::located(
                job,
                step,
                turns[k + 1],
            );
        if let LaunchdError::Location(fault) = error {
            lemma_location(at, op, fault, replies, turns, k);
        }
    }
}

proof fn lemma_location(
    at: launchd::locate::LocateState,
    op: LaunchdOp,
    fault: launchd::location::LocationError,
    replies: Seq<LaunchdReply>,
    turns: Seq<LaunchdTurn>,
    k: int,
)
    requires
        0 <= k < replies.len(),
        laws::asked(turns[k]) == Some(op),
        laws::locate_on_course(at, op, replies, turns, k),
        exists|step: LocateStep| #[trigger]
            launchd::locate::locate_stepped(at, replies[k], step) && step == LocateStep::Failed(
                LaunchdError::Location(fault),
            ),
    ensures
        op is ReadSudoUser || op is HomeOf,
        exists|invoked: PathText, resolved: PathText, home: Option<PathText>|
            {
                &&& laws::resolved_as(invoked, resolved, replies, turns, k)
                &&& laws::home_learnt(home, replies, turns, k + 1)
                &&& #[trigger] launchd::location::location_fault(invoked, resolved, home) == Some(
                    (fault.fault, fault.path@),
                )
            },
{
    lemma_later(replies, turns, k);
    let reply = replies[k];
    assert(laws::exchanged(replies, turns, k + 1, op, reply));
    match at {
        launchd::locate::LocateState::FindingUser(invoked, resolved) => {
            assert(laws::home_learnt(None, replies, turns, k + 1));
            assert(launchd::location::location_fault(invoked, resolved, None) == Some(
                (fault.fault, fault.path@),
            ));
        },
        launchd::locate::LocateState::FindingHome(invoked, resolved) => {
            if let LaunchdReply::Home(home) = reply {
                if let LaunchdOp::HomeOf { user } = op {
                    assert(laws::home_told(user, home, replies, turns, k + 1));
                }
                assert(laws::home_learnt(home, replies, turns, k + 1));
                assert(launchd::location::location_fault(invoked, resolved, home) == Some(
                    (fault.fault, fault.path@),
                ));
            }
        },
        _ => {},
    }
}

/// A failure ends a restart, and it is told of: a binary that cannot be found, resolved
/// or trusted, or a daemon that launchd does not know.
pub proof fn restart_failures_are_told(
    replies: Seq<LaunchdReply>,
    turns: Seq<LaunchdTurn>,
    k: int,
    op: LaunchdOp,
    error: LaunchdError,
)
    requires
        laws::course(launchd::restart::restart_begun(), replies, turns),
        0 <= k < replies.len(),
        laws::asked(turns[k]) == Some(op),
        blamed(op, replies[k]) == Some(error),
    ensures
        turns[k + 1] == LaunchdTurn::Failed(error),
{
    laws::lemma_restart(replies, turns, k);
    assert(laws::went_on(turns[k], replies[k], turns[k + 1]));
}

/// Of an uninstallation, only the removal of the plist and of the socket can fail; it
/// ends there, and tells of it. Everything else is done as far as it can be, and the
/// uninstallation goes on.
pub proof fn uninstallations_fail_only_to_remove(
    places: Places,
    replies: Seq<LaunchdReply>,
    turns: Seq<LaunchdTurn>,
    k: int,
    op: LaunchdOp,
)
    requires
        laws::course(launchd::uninstall::uninstall_begun(places), replies, turns),
        0 <= k < replies.len(),
        laws::asked(turns[k]) == Some(op),
    ensures
        turns[k + 1] is Failed <==> (op is RemovePlist || op is RemoveSocket) && !(
        replies[k] matches LaunchdReply::Done(Ok(_))),
        turns[k + 1] matches LaunchdTurn::Failed(error) ==> (replies[k] matches LaunchdReply::Done(
            Err(cause),
        ) && error == (LaunchdError::RemoveFailed { cause })),
{
    lemma_leaving(places, replies, turns, k);
    assert(laws::went_on(turns[k], replies[k], turns[k + 1]));
}

/// What came of each connection in a sweep is told of next, and so is a list that
/// failed.
pub proof fn sweeps_tell_what_came_of_them(
    places: Places,
    replies: Seq<LaunchdReply>,
    turns: Seq<LaunchdTurn>,
    k: int,
    op: ClientOp,
)
    requires
        laws::course(launchd::uninstall::uninstall_begun(places), replies, turns),
        0 <= k < replies.len(),
        laws::asked(turns[k]) == Some(LaunchdOp::Client(op)),
    ensures
        turns[k + 1] matches LaunchdTurn::Do { note, op: _, state: _ } && match (op, replies[k]) {
            (
                ClientOp::Disconnect { id, .. },
                LaunchdReply::Client(ClientReply::Done(Ok(_))),
            ) => note == Some(LaunchdNote::Disconnected { id }),
            (
                ClientOp::Disconnect { id, .. },
                LaunchdReply::Client(ClientReply::Done(Err(cause))),
            ) => note == Some(LaunchdNote::DisconnectFailed { id, cause }),
            (
                ClientOp::List { .. },
                LaunchdReply::Client(ClientReply::Listed(Err(cause))),
            ) => note == Some(LaunchdNote::ListFailed { cause }),
            _ => note is None,
        },
{
    lemma_leaving(places, replies, turns, k);
    laws::lemma_uninstall(places, replies, turns, k);
    assert(laws::went_on(turns[k], replies[k], turns[k + 1]));
}

} // verus!
