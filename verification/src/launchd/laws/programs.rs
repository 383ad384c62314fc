//! What the operations on the machine run.

use vstd::prelude::*;

use crate::launchd::steps;
use crate::launchd::steps::LaunchdOp;

verus! {

/// Operations on the group run the program that manages groups, on the daemon's group
/// and, where they are about a user, on that very user.
pub proof fn group_operations_name_the_group(op: LaunchdOp, user: String)
    requires
        op is ReadGroup || op is CreateGroup || op == (LaunchdOp::CheckMember { user }) || op == (
        LaunchdOp::AddMember { user }),
    ensures
        op.program() matches Some((program, args)) && {
            &&& program == "/usr/sbin/dseditgroup"@
            &&& args.last() == "wgd"@
            &&& args[0] == "-o"@
            &&& args[1] == (match op {
                LaunchdOp::ReadGroup => "read"@,
                LaunchdOp::CreateGroup => "create"@,
                LaunchdOp::CheckMember { user: _ } => "checkmember"@,
                _ => "edit"@,
            })
            &&& op is CheckMember ==> args.len() == 5 && args[2] == "-m"@ && args[3] == user@
            &&& op is AddMember ==> args.len() == 7 && args[2] == "-a"@ && args[3] == user@
                && args[4] == "-t"@ && args[5] == "user"@
            &&& op is ReadGroup || op is CreateGroup ==> args.len() == 3
        },
{
}

/// Operations on launchd run launchctl, on the daemon or on its plist.
pub proof fn launchd_operations_name_the_daemon(op: LaunchdOp)
    requires
        op is Bootout || op is Enable || op is Disable || op is Kickstart || op is Bootstrap,
    ensures
        op.program() matches Some((program, args)) && {
            &&& program == "/bin/launchctl"@
            &&& args[0] == (match op {
                LaunchdOp::Bootout => "bootout"@,
                LaunchdOp::Enable => "enable"@,
                LaunchdOp::Disable => "disable"@,
                LaunchdOp::Kickstart => "kickstart"@,
                _ => "bootstrap"@,
            })
            &&& op is Bootstrap ==> args.len() == 3 && args[1] == "system"@ && args[2]
                == "/Library/LaunchDaemons/me.pansen.wgd.privileged.plist"@
            &&& op is Kickstart ==> args.len() == 3 && args[1] == "-k"@
            &&& !(op is Bootstrap) ==> args.last() == "system/me.pansen.wgd.privileged"@
            &&& !(op is Bootstrap) && !(op is Kickstart) ==> args.len() == 2
        },
{
    reveal_strlit("system/");
    reveal_strlit("me.pansen.wgd.privileged");
    reveal_strlit("system/me.pansen.wgd.privileged");
    assert(steps::target() =~= "system/me.pansen.wgd.privileged"@);
}

/// The authorization right is registered by the program that manages rights; and nothing
/// else runs a program but the operations on the group and on launchd.
pub proof fn other_operations_run_nothing_but_the_registration(op: LaunchdOp)
    ensures
        op is RegisterRight ==> (op.program() matches Some((program, args)) && program
            == "/usr/bin/security"@ && args == seq![
            "authorizationdb"@,
            "write"@,
            "me.pansen.wgd.modify-connection"@,
        ]),
        op.program() is Some <==> op is RegisterRight || op is ReadGroup || op is CreateGroup
            || op is CheckMember || op is AddMember || op is Bootout || op is Enable
            || op is Disable || op is Kickstart || op is Bootstrap,
{
}

} // verus!
