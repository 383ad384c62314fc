//! What holds of every command on the daemon from its beginning to its end,
//! whatever the machine replies on the way.

use vstd::prelude::*;

use crate::client::{ClientOp, ClientReply};
use crate::launchd;
use crate::launchd::failure::LaunchdError;
use crate::launchd::install::{DraftState, InstallJob, InstallPlan, InstallState};
use crate::launchd::locate::{LocateState, LocateStep};
use crate::launchd::restart::RestartState;
use crate::launchd::steps;
use crate::launchd::steps::{LaunchdOp, LaunchdReply, LaunchdState, LaunchdTurn, Places};
use crate::launchd::uninstall::UninstallState;
use crate::paths::PathText;
use crate::privileged_api::DisconnectReason;

pub mod done;
pub mod programs;

verus! {

/// `next` is how a command goes on from `turn` when `reply` comes back.
pub open spec fn went_on(turn: LaunchdTurn, reply: LaunchdReply, next: LaunchdTurn) -> bool {
    turn matches LaunchdTurn::Do { note: _, op: _, state } && state.accepts(reply)
        && launchd::stepped(state, reply, next)
}

/// `turns` is a course that a command can take: it begins with `first`, and goes
/// on from each of `replies` as `resume` says.
pub open spec fn course(
    first: LaunchdTurn,
    replies: Seq<LaunchdReply>,
    turns: Seq<LaunchdTurn>,
) -> bool {
    &&& turns.len() == replies.len() + 1
    &&& turns[0] == first
    &&& forall|i: int|
        0 <= i < replies.len() ==> went_on(turns[i], #[trigger] replies[i], turns[i + 1])
}

/// The operation that a turn asks for.
pub open spec fn asked(turn: LaunchdTurn) -> Option<LaunchdOp> {
    match turn {
        LaunchdTurn::Do { note: _, op, state: _ } => Some(op),
        _ => None,
    }
}

/// Before step `k`, `op` was asked for and answered by `reply`.
pub open spec fn exchanged(
    replies: Seq<LaunchdReply>,
    turns: Seq<LaunchdTurn>,
    k: int,
    op: LaunchdOp,
    reply: LaunchdReply,
) -> bool {
    exists|j: int| 0 <= j < k && asked(#[trigger] turns[j]) == Some(op) && replies[j] == reply
}

/// Before step `k`, `op` was asked for and carried out.
pub open spec fn carried_out(
    replies: Seq<LaunchdReply>,
    turns: Seq<LaunchdTurn>,
    k: int,
    op: LaunchdOp,
) -> bool {
    exists|j: int|
        0 <= j < k && asked(#[trigger] turns[j]) == Some(op) && replies[j] matches
            LaunchdReply::Done(Ok(_))
}

// ---- installing -------------------------------------------------------------

/// Before step `k`, the path `invoked` was found to lead to the file `resolved`.
pub open spec fn resolved_as(
    invoked: PathText,
    resolved: PathText,
    replies: Seq<LaunchdReply>,
    turns: Seq<LaunchdTurn>,
    k: int,
) -> bool {
    &&& exchanged(replies, turns, k, LaunchdOp::CurrentExe, LaunchdReply::Path(Ok(invoked)))
    &&& exists|path: PathText|
        path.same(invoked) && #[trigger] exchanged(
            replies,
            turns,
            k,
            LaunchdOp::Canonicalize { path },
            LaunchdReply::Path(Ok(resolved)),
        )
}

/// Before step `k`, `user` was named as the one who ran `sudo`, and `home` as that
/// user's home.
pub open spec fn home_told(
    user: String,
    home: Option<PathText>,
    replies: Seq<LaunchdReply>,
    turns: Seq<LaunchdTurn>,
    k: int,
) -> bool {
    &&& exchanged(replies, turns, k, LaunchdOp::ReadSudoUser, LaunchdReply::Var(Some(user)))
    &&& exchanged(replies, turns, k, LaunchdOp::HomeOf { user }, LaunchdReply::Home(home))
}

/// Before step `k`, `home` was learnt of whoever ran `sudo`; or nobody was named, and
/// there is no home to learn.
pub open spec fn home_learnt(
    home: Option<PathText>,
    replies: Seq<LaunchdReply>,
    turns: Seq<LaunchdTurn>,
    k: int,
) -> bool {
    ||| home is None && exchanged(
        replies,
        turns,
        k,
        LaunchdOp::ReadSudoUser,
        LaunchdReply::Var(None),
    )
    ||| exists|user: String| #[trigger] home_told(user, home, replies, turns, k)
}

/// Before step `k`, neither the path `invoked` nor the file behind it, `resolved`, was
/// found within the reach of ordinary users or in `home`.
pub open spec fn well_placed(
    invoked: PathText,
    resolved: PathText,
    home: Option<PathText>,
    replies: Seq<LaunchdReply>,
    turns: Seq<LaunchdTurn>,
    k: int,
) -> bool {
    &&& resolved_as(invoked, resolved, replies, turns, k)
    &&& home_learnt(home, replies, turns, k)
    &&& launchd::location::location_fault(invoked, resolved, home) is None
}

/// Before step `k`, the file at `invoked` and its parents were found to belong to root.
pub open spec fn root_owned(
    invoked: PathText,
    replies: Seq<LaunchdReply>,
    turns: Seq<LaunchdTurn>,
    k: int,
) -> bool {
    exists|path: PathText|
        path.same(invoked) && #[trigger] carried_out(
            replies,
            turns,
            k,
            LaunchdOp::CheckRootOwned { path },
        )
}

/// Before step `k`, the binary at `path` was found fit to run as root: it and the file
/// behind it are out of ordinary users' reach and out of the home of whoever ran
/// `sudo`, and it and its parents belong to root.
pub open spec fn fit_for_root(
    path: String,
    replies: Seq<LaunchdReply>,
    turns: Seq<LaunchdTurn>,
    k: int,
) -> bool {
    exists|invoked: PathText, resolved: PathText, home: Option<PathText>|
        invoked.text == path && root_owned(invoked, replies, turns, k) && #[trigger] well_placed(
            invoked,
            resolved,
            home,
            replies,
            turns,
            k,
        )
}

/// The template yields a plist for the binary, whatever the group.
pub open spec fn usable(template: Seq<char>, binary: Seq<char>) -> bool {
    launchd::plist::refusal(template, binary) is None
}

spec fn locate_on_course(
    at: LocateState,
    op: LaunchdOp,
    replies: Seq<LaunchdReply>,
    turns: Seq<LaunchdTurn>,
    k: int,
) -> bool {
    &&& at.asks(op)
    &&& match at {
        LocateState::FindingExe => true,
        LocateState::Resolving(invoked) => exchanged(
            replies,
            turns,
            k,
            LaunchdOp::CurrentExe,
            LaunchdReply::Path(Ok(invoked)),
        ),
        LocateState::FindingUser(invoked, resolved) => resolved_as(
            invoked,
            resolved,
            replies,
            turns,
            k,
        ),
        LocateState::FindingHome(invoked, resolved) => {
            &&& resolved_as(invoked, resolved, replies, turns, k)
            &&& op matches LaunchdOp::HomeOf { user }
            &&& exchanged(
                replies,
                turns,
                k,
                LaunchdOp::ReadSudoUser,
                LaunchdReply::Var(Some(user)),
            )
        },
        LocateState::CheckingOwner(invoked) => exists|
            resolved: PathText,
            home: Option<PathText>,
        | #[trigger] well_placed(invoked, resolved, home, replies, turns, k),
    }
}

/// Before step `k`, all that can refuse the plan was looked at: the user is known,
/// the binary is fit to run as root, and the template yields a plist for it.
pub open spec fn vetted(
    plan: InstallPlan,
    replies: Seq<LaunchdReply>,
    turns: Seq<LaunchdTurn>,
    k: int,
) -> bool {
    &&& plan.job.user@.len() > 0
    &&& fit_for_root(plan.binary, replies, turns, k)
    &&& usable(plan.template@, plan.binary@)
}

/// The error refuses an installation for what it was asked to install, or for whom.
pub open spec fn refuses(error: LaunchdError) -> bool {
    match error {
        LaunchdError::NoInvokingUser => true,
        LaunchdError::ExeUnknown { .. } => true,
        LaunchdError::Unresolved { .. } => true,
        LaunchdError::Location(_) => true,
        LaunchdError::Untrusted { .. } => true,
        LaunchdError::NotUtf8 { .. } => true,
        LaunchdError::TemplateUnreadable { .. } => true,
        LaunchdError::Plist(_) => true,
        _ => false,
    }
}

/// Up to step `k`, nothing was asked for that does more than look.
pub open spec fn only_looked(turns: Seq<LaunchdTurn>, k: int) -> bool {
    forall|j: int|
        0 <= j <= k ==> (asked(#[trigger] turns[j]) matches Some(op) ==> steps::only_reads(op))
}

/// The last operation before step `k` was carried out, and was of this kind.
spec fn just_done(
    op: LaunchdOp,
    replies: Seq<LaunchdReply>,
    turns: Seq<LaunchdTurn>,
    k: int,
) -> bool {
    k > 0 && asked(turns[k - 1]) == Some(op) && replies[k - 1] matches LaunchdReply::Done(Ok(_))
}

spec fn draft_on_course(
    at: DraftState,
    op: LaunchdOp,
    replies: Seq<LaunchdReply>,
    turns: Seq<LaunchdTurn>,
    k: int,
) -> bool {
    match at {
        DraftState::Writing => op is WriteDraft,
        DraftState::SettingMode => op is SetDraftMode,
        DraftState::SettingOwner => {
            &&& op is SetDraftOwner
            &&& just_done(LaunchdOp::SetDraftMode, replies, turns, k)
        },
        DraftState::Installing => {
            &&& op is InstallDraft
            &&& just_done(LaunchdOp::SetDraftOwner, replies, turns, k)
            &&& just_done(LaunchdOp::SetDraftMode, replies, turns, k - 1)
        },
    }
}

spec fn install_on_course(replies: Seq<LaunchdReply>, turns: Seq<LaunchdTurn>, k: int) -> bool {
    match turns[k] {
        LaunchdTurn::Do { note, op, state: LaunchdState::Install(state) } => note is None && (
        match state {
            InstallState::FindingUser(_, _) => op is ReadSudoUser && only_looked(turns, k),
            InstallState::Locating(job, at) => {
                &&& job.user@.len() > 0
                &&& locate_on_course(at, op, replies, turns, k)
                &&& only_looked(turns, k)
            },
            InstallState::ReadingTemplate(job, binary) => {
                &&& op is ReadFile
                &&& only_looked(turns, k)
                &&& job.user@.len() > 0
                &&& fit_for_root(binary, replies, turns, k)
            },
            InstallState::Grouping(plan, _) => vetted(plan, replies, turns, k),
            InstallState::MakingDirectories(grouped, _) => vetted(
                grouped.plan,
                replies,
                turns,
                k,
            ),
            InstallState::Registering(grouped) => vetted(grouped.plan, replies, turns, k),
            InstallState::WritingPlist(grouped, at) => {
                &&& vetted(grouped.plan, replies, turns, k)
                &&& op matches LaunchdOp::WriteDraft { contents } ==> launchd::plist::rendering(
                    grouped.plan.template@,
                    grouped.plan.binary@,
                    grouped.gid,
                ) == Ok::<Seq<char>, launchd::plist::PlistError>(contents@)
                &&& draft_on_course(at, op, replies, turns, k)
            },
            InstallState::DroppingDraft(error) => {
                &&& op is RemoveDraft
                &&& !refuses(error)
                &&& exists|plan: InstallPlan| #[trigger] vetted(plan, replies, turns, k)
            },
            InstallState::Bootstrapping(grouped, _) => vetted(
                grouped.plan,
                replies,
                turns,
                k,
            ),
        }),
        LaunchdTurn::Do { .. } => false,
        LaunchdTurn::Failed(error) => refuses(error) ==> only_looked(turns, k),
        LaunchdTurn::Done(_) => true,
    }
}

/// What was exchanged stays so.
proof fn lemma_exchanged_later(replies: Seq<LaunchdReply>, turns: Seq<LaunchdTurn>, k: int)
    ensures
        forall|op: LaunchdOp, reply: LaunchdReply|
            exchanged(replies, turns, k, op, reply) ==> #[trigger] exchanged(
                replies,
                turns,
                k + 1,
                op,
                reply,
            ),
{
    assert forall|op: LaunchdOp, reply: LaunchdReply|
        exchanged(replies, turns, k, op, reply) implies #[trigger] exchanged(
        replies,
        turns,
        k + 1,
        op,
        reply,
    ) by {
        let j = choose|j: int|
            0 <= j < k && asked(#[trigger] turns[j]) == Some(op) && replies[j] == reply;
        assert(asked(turns[j]) == Some(op));
    }
}

proof fn lemma_resolved_later(
    invoked: PathText,
    resolved: PathText,
    replies: Seq<LaunchdReply>,
    turns: Seq<LaunchdTurn>,
    k: int,
)
    requires
        resolved_as(invoked, resolved, replies, turns, k),
    ensures
        resolved_as(invoked, resolved, replies, turns, k + 1),
{
    lemma_exchanged_later(replies, turns, k);
    let path = choose|path: PathText|
        path.same(invoked) && #[trigger] exchanged(
            replies,
            turns,
            k,
            LaunchdOp::Canonicalize { path },
            LaunchdReply::Path(Ok(resolved)),
        );
    assert(exchanged(
        replies,
        turns,
        k + 1,
        LaunchdOp::Canonicalize { path },
        LaunchdReply::Path(Ok(resolved)),
    ));
}

proof fn lemma_placed_later(
    invoked: PathText,
    resolved: PathText,
    home: Option<PathText>,
    replies: Seq<LaunchdReply>,
    turns: Seq<LaunchdTurn>,
    k: int,
)
    requires
        well_placed(invoked, resolved, home, replies, turns, k),
    ensures
        well_placed(invoked, resolved, home, replies, turns, k + 1),
{
    lemma_resolved_later(invoked, resolved, replies, turns, k);
    lemma_exchanged_later(replies, turns, k);
    if exists|user: String| #[trigger] home_told(user, home, replies, turns, k) {
        let user = choose|user: String| #[trigger] home_told(user, home, replies, turns, k);
        assert(home_told(user, home, replies, turns, k + 1));
    }
}

proof fn lemma_fit_later(
    path: String,
    replies: Seq<LaunchdReply>,
    turns: Seq<LaunchdTurn>,
    k: int,
)
    ensures
        fit_for_root(path, replies, turns, k) ==> fit_for_root(path, replies, turns, k + 1),
{
    if fit_for_root(path, replies, turns, k) {
        let (invoked, resolved, home) = choose|
            invoked: PathText,
            resolved: PathText,
            home: Option<PathText>,
        | invoked.text == path && root_owned(invoked, replies, turns, k) && #[trigger] well_placed(
            invoked,
            resolved,
            home,
            replies,
            turns,
            k,
        );
        let checked = choose|path: PathText|
            path.same(invoked) && #[trigger] carried_out(
                replies,
                turns,
                k,
                LaunchdOp::CheckRootOwned { path },
            );
        let op = LaunchdOp::CheckRootOwned { path: checked };
        let j = choose|j: int|
            0 <= j < k && asked(#[trigger] turns[j]) == Some(op) && replies[j] matches
                LaunchdReply::Done(Ok(_));
        assert(asked(turns[j]) == Some(op));
        assert(carried_out(replies, turns, k + 1, op));
        lemma_placed_later(invoked, resolved, home, replies, turns, k);
    }
}

/// The search for the binary, one step on.
proof fn lemma_search(
    at: LocateState,
    op: LaunchdOp,
    step: LocateStep,
    replies: Seq<LaunchdReply>,
    turns: Seq<LaunchdTurn>,
    k: int,
)
    requires
        k > 0,
        asked(turns[k - 1]) == Some(op),
        locate_on_course(at, op, replies, turns, k - 1),
        launchd::locate::locate_stepped(at, replies[k - 1], step),
    ensures
        step matches LocateStep::Ask(next, state) ==> locate_on_course(
            state,
            next,
            replies,
            turns,
            k,
        ),
        step matches LocateStep::Found(path) ==> fit_for_root(path.text, replies, turns, k),
{
    lemma_exchanged_later(replies, turns, k - 1);
    assert(exchanged(replies, turns, k, op, replies[k - 1])) by {
        assert(asked(turns[k - 1]) == Some(op));
    }
    match at {
        LocateState::FindingUser(invoked, resolved) => {
            lemma_resolved_later(invoked, resolved, replies, turns, k - 1);
            if let LaunchdReply::Var(user) = replies[k - 1] {
                assert(exchanged(
                    replies,
                    turns,
                    k,
                    LaunchdOp::ReadSudoUser,
                    LaunchdReply::Var(user),
                ));
                match user {
                    Some(user) => {
                        assert(locate_on_course(
                            LocateState::FindingHome(invoked, resolved),
                            LaunchdOp::HomeOf { user },
                            replies,
                            turns,
                            k,
                        ));
                    },
                    None => {
                        if launchd::location::location_fault(invoked, resolved, None) is None {
                            assert(well_placed(invoked, resolved, None, replies, turns, k));
                        }
                    },
                }
            }
        },
        LocateState::FindingHome(invoked, resolved) => {
            lemma_resolved_later(invoked, resolved, replies, turns, k - 1);
            if let LaunchdReply::Home(home) = replies[k - 1] {
                if let LaunchdOp::HomeOf { user } = op {
                    assert(home_told(user, home, replies, turns, k));
                }
                if launchd::location::location_fault(invoked, resolved, home) is None {
                    assert(well_placed(invoked, resolved, home, replies, turns, k));
                }
            }
        },
        LocateState::CheckingOwner(invoked) => {
            let (resolved, home) = choose|resolved: PathText, home: Option<PathText>| #[trigger]
                well_placed(invoked, resolved, home, replies, turns, k - 1);
            lemma_placed_later(invoked, resolved, home, replies, turns, k - 1);
            if replies[k - 1] matches LaunchdReply::Done(Ok(_)) {
                assert(carried_out(replies, turns, k, op));
                assert(root_owned(invoked, replies, turns, k));
            }
        },
        _ => {},
    }
}

/// Having only looked so far, one step on.
proof fn lemma_looked(turns: Seq<LaunchdTurn>, k: int)
    requires
        k > 0,
        only_looked(turns, k - 1),
        asked(turns[k]) matches Some(op) ==> steps::only_reads(op),
    ensures
        only_looked(turns, k),
{
}

proof fn lemma_located(
    job: InstallJob,
    at: LocateState,
    step: LocateStep,
    replies: Seq<LaunchdReply>,
    turns: Seq<LaunchdTurn>,
    k: int,
)
    requires
        k > 0,
        job.user@.len() > 0,
        turns[k - 1] matches LaunchdTurn::Do { note: _, op, state } && state
            == LaunchdState::Install(InstallState::Locating(job, at)) && locate_on_course(
            at,
            op,
            replies,
            turns,
            k - 1,
        ),
        only_looked(turns, k - 1),
        launchd::locate::locate_stepped(at, replies[k - 1], step),
        launchd::install::located(job, step, turns[k]),
    ensures
        install_on_course(replies, turns, k),
{
    lemma_search(at, asked(turns[k - 1])->0, step, replies, turns, k);
    lemma_looked(turns, k);
}

proof fn lemma_install(
    plist_template: Option<PathText>,
    places: Places,
    replies: Seq<LaunchdReply>,
    turns: Seq<LaunchdTurn>,
    k: int,
)
    requires
        course(launchd::install::install_begun(plist_template, places), replies, turns),
        0 <= k < turns.len(),
    ensures
        install_on_course(replies, turns, k),
    decreases k,
{
    if k > 0 {
        let p = k - 1;
        lemma_install(plist_template, places, replies, turns, p);
        assert(went_on(turns[p], replies[p], turns[p + 1]));
        if let LaunchdTurn::Do { note: _, op: _, state: LaunchdState::Install(state) } = turns[p] {
            match state {
                InstallState::Locating(job, at) => {
                    let step = choose|step: LocateStep| #[trigger]
                        launchd::locate::locate_stepped(at, replies[p], step)
                            && launchd::install::located(job, step, turns[k]);
                    lemma_located(job, at, step, replies, turns, k);
                },
                InstallState::FindingUser(_, _) => {
                    lemma_looked(turns, k);
                },
                InstallState::ReadingTemplate(_, binary) => {
                    lemma_fit_later(binary, replies, turns, p);
                    lemma_looked(turns, k);
                },
                InstallState::Grouping(plan, _) => {
                    lemma_fit_later(plan.binary, replies, turns, p);
                },
                InstallState::MakingDirectories(grouped, _) => {
                    lemma_fit_later(grouped.plan.binary, replies, turns, p);
                },
                InstallState::Registering(grouped) => {
                    lemma_fit_later(grouped.plan.binary, replies, turns, p);
                    launchd::plist::refusal_is_the_same_for_every_group(
                        grouped.plan.template@,
                        grouped.plan.binary@,
                        grouped.gid,
                    );
                },
                InstallState::WritingPlist(grouped, _) => {
                    lemma_fit_later(grouped.plan.binary, replies, turns, p);
                    assert(vetted(grouped.plan, replies, turns, k));
                },
                InstallState::Bootstrapping(grouped, _) => {
                    lemma_fit_later(grouped.plan.binary, replies, turns, p);
                },
                _ => {},
            }
        }
    }
}

/// An installation changes nothing on the machine before all that can refuse it
/// was looked at: the user is known, the binary and the file behind it stand out of
/// ordinary users' reach, it belongs to root with all its parents, and the template
/// yields a plist for it.
pub proof fn install_validates_before_it_changes(
    plist_template: Option<PathText>,
    places: Places,
    replies: Seq<LaunchdReply>,
    turns: Seq<LaunchdTurn>,
    k: int,
    op: LaunchdOp,
)
    requires
        course(launchd::install::install_begun(plist_template, places), replies, turns),
        0 <= k < turns.len(),
        asked(turns[k]) == Some(op),
        !steps::only_reads(op),
    ensures
        exists|plan: InstallPlan| #[trigger] vetted(plan, replies, turns, k),
{
    lemma_install(plist_template, places, replies, turns, k);
    if let LaunchdTurn::Do { note: _, op: _, state: LaunchdState::Install(state) } = turns[k] {
        match state {
            InstallState::Grouping(plan, _) => {
                assert(vetted(plan, replies, turns, k));
            },
            InstallState::MakingDirectories(grouped, _) => {
                assert(vetted(grouped.plan, replies, turns, k));
            },
            InstallState::Registering(grouped) => {
                assert(vetted(grouped.plan, replies, turns, k));
            },
            InstallState::WritingPlist(grouped, _) => {
                assert(vetted(grouped.plan, replies, turns, k));
            },
            InstallState::Bootstrapping(grouped, _) => {
                assert(vetted(grouped.plan, replies, turns, k));
            },
            _ => {},
        }
    }
}

/// An installation that is refused for what it was asked to install, or for whom, has
/// changed nothing on the machine: everything that was asked for only looked.
pub proof fn refused_installs_change_nothing(
    plist_template: Option<PathText>,
    places: Places,
    replies: Seq<LaunchdReply>,
    turns: Seq<LaunchdTurn>,
    k: int,
    error: LaunchdError,
)
    requires
        course(launchd::install::install_begun(plist_template, places), replies, turns),
        0 <= k < turns.len(),
        turns[k] == LaunchdTurn::Failed(error),
        refuses(error),
    ensures
        only_looked(turns, k),
{
    lemma_install(plist_template, places, replies, turns, k);
}

/// The plist that an installation writes carries the daemon's label and nothing
/// left to fill in.
pub proof fn written_plist_is_complete(
    plist_template: Option<PathText>,
    places: Places,
    replies: Seq<LaunchdReply>,
    turns: Seq<LaunchdTurn>,
    k: int,
    contents: String,
)
    requires
        course(launchd::install::install_begun(plist_template, places), replies, turns),
        0 <= k < turns.len(),
        asked(turns[k]) == Some(LaunchdOp::WriteDraft { contents }),
    ensures
        !crate::text::has_text(contents@, launchd::plist::BIN_PLACEHOLDER@),
        !crate::text::has_text(contents@, launchd::plist::SOCK_GROUP_MARKER@),
        crate::text::has_text(contents@, launchd::plist::LABEL@),
{
    lemma_install(plist_template, places, replies, turns, k);
    if k > 0 {
        lemma_install(plist_template, places, replies, turns, k - 1);
        assert(went_on(turns[k - 1], replies[k - 1], turns[k]));
    }
}

/// A plist is moved into its place only after it got its permissions and its
/// owner: launchd never sees one that somebody else could still write to.
pub proof fn plist_is_sealed_before_it_is_installed(
    plist_template: Option<PathText>,
    places: Places,
    replies: Seq<LaunchdReply>,
    turns: Seq<LaunchdTurn>,
    k: int,
)
    requires
        course(launchd::install::install_begun(plist_template, places), replies, turns),
        0 <= k < turns.len(),
        asked(turns[k]) == Some(LaunchdOp::InstallDraft),
    ensures
        carried_out(replies, turns, k, LaunchdOp::SetDraftMode),
        carried_out(replies, turns, k, LaunchdOp::SetDraftOwner),
{
    lemma_install(plist_template, places, replies, turns, k);
    if k > 0 {
        lemma_install(plist_template, places, replies, turns, k - 1);
        assert(went_on(turns[k - 1], replies[k - 1], turns[k]));
        assert(asked(turns[k - 1]) == Some(LaunchdOp::SetDraftOwner));
        assert(asked(turns[k - 2]) == Some(LaunchdOp::SetDraftMode));
    }
}

// ---- restarting -------------------------------------------------------------

spec fn restart_on_course(replies: Seq<LaunchdReply>, turns: Seq<LaunchdTurn>, k: int) -> bool {
    match turns[k] {
        LaunchdTurn::Do { note: _, op, state: LaunchdState::Restart(state) } => match state {
            RestartState::Locating(at) => locate_on_course(at, op, replies, turns, k),
            RestartState::Kicking => op is Kickstart && exists|path: String| #[trigger]
                fit_for_root(path, replies, turns, k),
        },
        LaunchdTurn::Do { .. } => false,
        _ => true,
    }
}

proof fn lemma_restart(replies: Seq<LaunchdReply>, turns: Seq<LaunchdTurn>, k: int)
    requires
        course(launchd::restart::restart_begun(), replies, turns),
        0 <= k < turns.len(),
    ensures
        restart_on_course(replies, turns, k),
    decreases k,
{
    if k > 0 {
        let p = k - 1;
        lemma_restart(replies, turns, p);
        assert(went_on(turns[p], replies[p], turns[p + 1]));
        if let LaunchdTurn::Do { note: _, op, state: LaunchdState::Restart(state) } = turns[p] {
            if let RestartState::Locating(at) = state {
                let step = choose|step: LocateStep| #[trigger]
                    launchd::locate::locate_stepped(at, replies[p], step) && turns[k]
                        == launchd::restart::restart_from(step);
                lemma_search(at, op, step, replies, turns, k);
            }
        }
    }
}

/// The daemon is restarted only by a binary that could also have installed it.
pub proof fn restart_validates_first(
    replies: Seq<LaunchdReply>,
    turns: Seq<LaunchdTurn>,
    k: int,
    op: LaunchdOp,
)
    requires
        course(launchd::restart::restart_begun(), replies, turns),
        0 <= k < turns.len(),
        asked(turns[k]) == Some(op),
        !steps::only_reads(op),
    ensures
        exists|path: String| #[trigger] fit_for_root(path, replies, turns, k),
{
    lemma_restart(replies, turns, k);
}

// ---- uninstalling -----------------------------------------------------------

/// How often the connections were asked for before step `k`.
pub open spec fn listings(turns: Seq<LaunchdTurn>, k: int) -> int
    decreases k,
{
    if k <= 0 {
        0
    } else {
        listings(turns, k - 1) + if asked(turns[k - 1]) == Some(launchd::uninstall::listing()) {
            1int
        } else {
            0int
        }
    }
}

spec fn uninstall_on_course(turns: Seq<LaunchdTurn>, k: int) -> bool {
    match turns[k] {
        LaunchdTurn::Do { note: _, op, state: LaunchdState::Uninstall(state) } => match state {
            UninstallState::Listing { places: _, left } => op == launchd::uninstall::listing()
                && listings(turns, k) + left == 1,
            UninstallState::Disconnecting { places: _, left, ids, at } => {
                &&& at < ids@.len()
                &&& op == launchd::uninstall::taking_down(ids@[at as int])
                &&& listings(turns, k) + left == 2
            },
            UninstallState::Dropping(_) => op is Bootout && listings(turns, k) == 2,
            UninstallState::Disabling(_) => op is Disable && listings(turns, k) == 2,
            UninstallState::RemovingPlist(_) => op is RemovePlist && listings(turns, k) == 2,
            UninstallState::RemovingSocket(_) => op is RemoveSocket && listings(turns, k) == 2,
        },
        LaunchdTurn::Do { .. } => false,
        _ => true,
    }
}

proof fn lemma_uninstall(
    places: Places,
    replies: Seq<LaunchdReply>,
    turns: Seq<LaunchdTurn>,
    k: int,
)
    requires
        course(launchd::uninstall::uninstall_begun(places), replies, turns),
        0 <= k < turns.len(),
    ensures
        uninstall_on_course(turns, k),
    decreases k,
{
    if k > 0 {
        lemma_uninstall(places, replies, turns, k - 1);
        assert(went_on(turns[k - 1], replies[k - 1], turns[k]));
    }
}

/// launchd is told to drop the daemon only after the connections were swept
/// twice.
pub proof fn uninstall_sweeps_twice_before_it_drops_the_daemon(
    places: Places,
    replies: Seq<LaunchdReply>,
    turns: Seq<LaunchdTurn>,
    k: int,
)
    requires
        course(launchd::uninstall::uninstall_begun(places), replies, turns),
        0 <= k < turns.len(),
        asked(turns[k]) == Some(LaunchdOp::Bootout),
    ensures
        listings(turns, k) == 2,
{
    lemma_uninstall(places, replies, turns, k);
}

/// A sweep asks every connection that is up to go down, one after the other,
/// whatever came of those before: a connection that is stuck does not keep the
/// others up. It asks in the name of a session that ends, and never starts a
/// daemon to be asked.
pub proof fn sweeps_leave_no_connection_out(
    places: Places,
    replies: Seq<LaunchdReply>,
    turns: Seq<LaunchdTurn>,
    k: int,
    list: Vec<crate::privileged_api::ConnectionSummary>,
    n: int,
)
    requires
        course(launchd::uninstall::uninstall_begun(places), replies, turns),
        0 <= k < replies.len(),
        replies[k] == LaunchdReply::Client(ClientReply::Listed(Ok(list))),
        0 <= n < crate::client::connected_ids(list@).len(),
        k + 1 + n < turns.len(),
    ensures
        asked(turns[k + 1 + n]) == Some(
            launchd::uninstall::taking_down(crate::client::connected_ids(list@)[n]),
        ),
{
    lemma_sweep(places, replies, turns, k, list, n);
}

proof fn lemma_sweep(
    places: Places,
    replies: Seq<LaunchdReply>,
    turns: Seq<LaunchdTurn>,
    k: int,
    list: Vec<crate::privileged_api::ConnectionSummary>,
    n: int,
)
    requires
        course(launchd::uninstall::uninstall_begun(places), replies, turns),
        0 <= k < replies.len(),
        replies[k] == LaunchdReply::Client(ClientReply::Listed(Ok(list))),
        0 <= n < crate::client::connected_ids(list@).len(),
        k + 1 + n < turns.len(),
    ensures
        asked(turns[k + 1 + n]) == Some(
            launchd::uninstall::taking_down(crate::client::connected_ids(list@)[n]),
        ),
        turns[k + 1 + n] matches LaunchdTurn::Do {
            note: _,
            op: _,
            state: LaunchdState::Uninstall(
                UninstallState::Disconnecting { places: _, left: _, ids, at },
            ),
        } && ids@ == crate::client::connected_ids(list@) && at == n,
    decreases n,
{
    lemma_uninstall(places, replies, turns, k);
    if n == 0 {
        assert(went_on(turns[k], replies[k], turns[k + 1]));
    } else {
        lemma_sweep(places, replies, turns, k, list, n - 1);
        assert(went_on(turns[k + n], replies[k + n], turns[k + n + 1]));
    }
}

/// An uninstallation never starts a daemon, and never records that a user wanted
/// a connection down.
pub proof fn uninstall_asks_in_nobodys_name(
    places: Places,
    replies: Seq<LaunchdReply>,
    turns: Seq<LaunchdTurn>,
    k: int,
    op: ClientOp,
)
    requires
        course(launchd::uninstall::uninstall_begun(places), replies, turns),
        0 <= k < turns.len(),
        asked(turns[k]) == Some(LaunchdOp::Client(op)),
    ensures
        op matches ClientOp::List { scope: _, autostart } ==> !autostart,
        op matches ClientOp::Disconnect { id: _, reason, autostart } ==> !autostart && reason
            == DisconnectReason::SessionTeardown,
        op is List || op is Disconnect,
{
    lemma_uninstall(places, replies, turns, k);
}

} // verus!
