//! What the commands on the daemon do to the machine, one operation at a time.

use vstd::prelude::*;

use crate::client::{ClientOp, ClientReply};
use crate::launchctl::{invocation, Invocation, LAUNCHCTL};
use crate::launchd::failure::LaunchdError;
use crate::launchd::install::InstallState;
use crate::launchd::plist::{LABEL, PLIST_PATH};
use crate::launchd::restart::RestartState;
use crate::launchd::uninstall::UninstallState;
use crate::paths::PathText;
use crate::privileged_api::ConnectionId;
use crate::text::{framed, prefixed};

verus! {

/// The group whose members may use the daemon's socket.
pub const GROUP_NAME: &'static str = "wgd";

/// The program that manages groups.
pub const DSEDITGROUP: &'static str = "/usr/sbin/dseditgroup";

/// The program that manages authorization rights.
pub const SECURITY: &'static str = "/usr/bin/security";

/// The authorization right that guards changes to the connection store.
pub const RIGHT_NAME: &'static str = "me.pansen.wgd.modify-connection";

/// The permissions of the log directory.
pub const LOG_DIR_MODE: u32 = 0o755;

/// The permissions of the directory that the daemon's socket stands in.
pub const SOCKET_DIR_MODE: u32 = 0o750;

/// The permissions of the installed plist.
pub const PLIST_MODE: u32 = 0o644;

/// Where the daemon keeps what it writes.
#[derive(Debug)]
pub struct Places {
    pub log_dir: String,
    pub socket_dir: String,
    pub socket_path: String,
}

/// One operation on the machine.
#[allow(inconsistent_fields)]
#[derive(Debug)]
pub enum LaunchdOp {
    /// Read the variable that names the user who ran `sudo`.
    ReadSudoUser,
    /// Find the path of the running binary.
    CurrentExe,
    /// Resolve a path to the file behind it.
    Canonicalize { path: PathText },
    /// Look a user's home directory up.
    HomeOf { user: String },
    /// Check that a file and its parents belong to root and to nobody else.
    CheckRootOwned { path: PathText },
    /// Read a file.
    ReadFile { path: PathText },
    /// Ask whether the group exists.
    ReadGroup,
    CreateGroup,
    /// Ask whether a user is a member of the group.
    CheckMember { user: String },
    AddMember { user: String },
    /// Look the group's number up.
    GroupId,
    /// Create a directory and its parents.
    CreateDir { path: String },
    SetMode { path: String, mode: u32 },
    /// Give a file to a group.
    SetGroup { path: String, gid: u32 },
    /// Register the authorization right, with the policy on the standard input.
    RegisterRight,
    /// Write the plist next to its place.
    WriteDraft { contents: String },
    /// Make the draft readable for all, and writable for its owner alone.
    SetDraftMode,
    /// Give the draft to root and its group.
    SetDraftOwner,
    /// Move the draft into its place.
    InstallDraft,
    RemoveDraft,
    /// Have launchd forget the daemon.
    Bootout,
    /// Have launchd accept the daemon again.
    Enable,
    /// Have launchd load the plist.
    Bootstrap,
    /// Have launchd refuse the daemon from now on.
    Disable,
    /// Have launchd restart the daemon.
    Kickstart,
    /// Remove the plist, if it is there.
    RemovePlist,
    /// Remove the daemon's socket, if it is there.
    RemoveSocket { path: String },
    /// Ask the running daemon.
    Client(ClientOp),
}

/// What came of the registration of the authorization right.
#[derive(Debug)]
pub enum Registration {
    /// The program could not be started.
    NotStarted(String),
    /// The program could not be waited for.
    Lost(String),
    /// The program ended; `written` tells whether it took the policy.
    Ended { success: bool, status: String, stderr: String, written: Result<(), String> },
}

/// The answer to an operation. An error is given in words.
#[derive(Debug)]
pub enum LaunchdReply {
    Var(Option<String>),
    Path(Result<PathText, String>),
    Home(Option<PathText>),
    Done(Result<(), String>),
    Text(Result<String, String>),
    /// Whether a program ended well, or why it could not be run.
    Status(Result<bool, String>),
    Gid(Option<u32>),
    Registered(Registration),
    Client(ClientReply),
}

/// `reply` is of the kind that answers `op`.
pub open spec fn fits(op: LaunchdOp, reply: LaunchdReply) -> bool {
    match op {
        LaunchdOp::ReadSudoUser => reply is Var,
        LaunchdOp::CurrentExe => reply is Path,
        LaunchdOp::Canonicalize { .. } => reply is Path,
        LaunchdOp::HomeOf { .. } => reply is Home,
        LaunchdOp::ReadFile { .. } => reply is Text,
        LaunchdOp::ReadGroup => reply is Status,
        LaunchdOp::CheckMember { .. } => reply is Status,
        LaunchdOp::GroupId => reply is Gid,
        LaunchdOp::RegisterRight => reply is Registered,
        LaunchdOp::Client(op) => reply matches LaunchdReply::Client(answer)
            && crate::client::answers(op, answer),
        _ => reply is Done,
    }
}

/// The operation only looks.
pub open spec fn only_reads(op: LaunchdOp) -> bool {
    match op {
        LaunchdOp::ReadSudoUser => true,
        LaunchdOp::CurrentExe => true,
        LaunchdOp::Canonicalize { .. } => true,
        LaunchdOp::HomeOf { .. } => true,
        LaunchdOp::CheckRootOwned { .. } => true,
        LaunchdOp::ReadFile { .. } => true,
        LaunchdOp::ReadGroup => true,
        LaunchdOp::CheckMember { .. } => true,
        LaunchdOp::GroupId => true,
        LaunchdOp::Client(ClientOp::List { .. }) => true,
        _ => false,
    }
}

/// What launchd calls the daemon.
pub open spec fn target() -> Seq<char> {
    "system/"@ + LABEL@
}

fn target_text() -> (result: String)
    ensures
        result@ == target(),
{
    let mut result = "system/".to_string();
    result.append(LABEL);
    result
}

/// Where the plist is written before it is moved into its place.
pub open spec fn draft() -> Seq<char> {
    PLIST_PATH@ + ".tmp"@
}

/// Where the plist is written before it is moved into its place.
pub fn draft_path() -> (result: String)
    ensures
        result@ == draft(),
{
    let mut result = PLIST_PATH.to_string();
    result.append(".tmp");
    result
}

impl LaunchdOp {
    /// The program that the operation runs, with its arguments, if it runs one.
    pub open spec fn program(self) -> Option<(Seq<char>, Seq<Seq<char>>)> {
        match self {
            LaunchdOp::ReadGroup => Some((DSEDITGROUP@, seq!["-o"@, "read"@, GROUP_NAME@])),
            LaunchdOp::CreateGroup => Some((DSEDITGROUP@, seq!["-o"@, "create"@, GROUP_NAME@])),
            LaunchdOp::CheckMember { user } => Some(
                (DSEDITGROUP@, seq!["-o"@, "checkmember"@, "-m"@, user@, GROUP_NAME@]),
            ),
            LaunchdOp::AddMember { user } => Some(
                (
                    DSEDITGROUP@,
                    seq!["-o"@, "edit"@, "-a"@, user@, "-t"@, "user"@, GROUP_NAME@],
                ),
            ),
            LaunchdOp::RegisterRight => Some(
                (SECURITY@, seq!["authorizationdb"@, "write"@, RIGHT_NAME@]),
            ),
            LaunchdOp::Bootout => Some((LAUNCHCTL@, seq!["bootout"@, target()])),
            LaunchdOp::Enable => Some((LAUNCHCTL@, seq!["enable"@, target()])),
            LaunchdOp::Bootstrap => Some((LAUNCHCTL@, seq!["bootstrap"@, "system"@, PLIST_PATH@])),
            LaunchdOp::Disable => Some((LAUNCHCTL@, seq!["disable"@, target()])),
            LaunchdOp::Kickstart => Some((LAUNCHCTL@, seq!["kickstart"@, "-k"@, target()])),
            _ => None,
        }
    }

    /// The program that the operation runs, with its arguments, if it runs one.
    pub fn invocation(&self) -> (result: Option<Invocation>)
        ensures
            match result {
                Some(run) => self.program() matches Some((program, args)) && run.runs(
                    program,
                    args,
                ),
                None => self.program() is None,
            },
    {
        let result = match self {
            LaunchdOp::ReadGroup => Some(
                invocation(DSEDITGROUP).with("-o").with("read").with(GROUP_NAME),
            ),
            LaunchdOp::CreateGroup => Some(
                invocation(DSEDITGROUP).with("-o").with("create").with(GROUP_NAME),
            ),
            LaunchdOp::CheckMember { user } => Some(
                invocation(DSEDITGROUP).with("-o").with("checkmember").with("-m").with(
                    user.as_str(),
                ).with(GROUP_NAME),
            ),
            LaunchdOp::AddMember { user } => Some(
                invocation(DSEDITGROUP).with("-o").with("edit").with("-a").with(user.as_str()).with(
                    "-t",
                ).with("user").with(GROUP_NAME),
            ),
            LaunchdOp::RegisterRight => Some(
                invocation(SECURITY).with("authorizationdb").with("write").with(RIGHT_NAME),
            ),
            LaunchdOp::Bootout => Some(
                invocation(LAUNCHCTL).with("bootout").with(target_text().as_str()),
            ),
            LaunchdOp::Enable => Some(
                invocation(LAUNCHCTL).with("enable").with(target_text().as_str()),
            ),
            LaunchdOp::Bootstrap => Some(
                invocation(LAUNCHCTL).with("bootstrap").with("system").with(PLIST_PATH),
            ),
            LaunchdOp::Disable => Some(
                invocation(LAUNCHCTL).with("disable").with(target_text().as_str()),
            ),
            LaunchdOp::Kickstart => Some(
                invocation(LAUNCHCTL).with("kickstart").with("-k").with(target_text().as_str()),
            ),
            _ => None,
        };
        proof {
            if result is Some {
                let (_, args) = self.program()->0;
                assert(crate::text::strings_of(result->0.args@) =~= args);
            }
        }
        result
    }
}

/// What a command reports on the way.
#[derive(Debug)]
pub enum LaunchdNote {
    ListFailed { cause: String },
    Disconnected { id: ConnectionId },
    DisconnectFailed { id: ConnectionId, cause: String },
}

impl LaunchdNote {
    /// The note in words.
    pub open spec fn text(self) -> Seq<char> {
        match self {
            LaunchdNote::ListFailed { cause } =>
                "Warning: failed to list connections before uninstall: "@ + cause@,
            LaunchdNote::Disconnected { id } => "Disconnected "@ + id.text@,
            LaunchdNote::DisconnectFailed { id, cause } => "Warning: failed to disconnect "@
                + id.text@ + ": "@ + cause@,
        }
    }

    /// The note in words.
    pub fn message(&self) -> (result: String)
        ensures
            result@ == self.text(),
    {
        match self {
            LaunchdNote::ListFailed { cause } => prefixed(
                "Warning: failed to list connections before uninstall: ",
                cause.as_str(),
            ),
            LaunchdNote::Disconnected { id } => prefixed("Disconnected ", id.text.as_str()),
            LaunchdNote::DisconnectFailed { id, cause } => {
                let mut result = framed("Warning: failed to disconnect ", id.text.as_str(), ": ");
                result.append(cause.as_str());
                result
            },
        }
    }

    /// Whether the note is a warning.
    pub fn is_warning(&self) -> (result: bool)
        ensures
            result == !(self is Disconnected),
    {
        match self {
            LaunchdNote::Disconnected { .. } => false,
            _ => true,
        }
    }
}

/// What a command reports when it went through.
#[derive(Debug)]
pub enum LaunchdReport {
    Installed { binary: String, template: Option<PathText>, user: String, member_added: bool },
    Restarted,
    Uninstalled { log_dir: String, socket_dir: String },
}

/// The lines of a report, one after the other.
pub open spec fn report_lines(report: LaunchdReport) -> Seq<Seq<char>> {
    match report {
        LaunchdReport::Installed { binary, template, user, member_added } => seq![
            "wgd privileged daemon installed."@,
            "  binary: "@ + binary@,
            "  plist:  "@ + PLIST_PATH@,
        ] + (match template {
            Some(path) => seq!["  template: "@ + path.text@],
            None => Seq::<Seq<char>>::empty(),
        }) + (if member_added {
            seq![
                "Added "@ + user@
                    + " to the wgd group. If wgd reports permission denied when connecting to the daemon, log out and back in for group membership to take effect."@,
            ]
        } else {
            Seq::<Seq<char>>::empty()
        }),
        LaunchdReport::Restarted => seq!["wgd privileged daemon restarted."@],
        LaunchdReport::Uninstalled { log_dir, socket_dir } => seq![
            "wgd privileged daemon uninstalled."@,
            "Intentionally kept (remove with `make purge/privileged` for a full removal):"@,
            "  the wgd binary"@,
            "  the wgd group"@,
            "  "@ + log_dir@,
            "  the runtime directory ("@ + socket_dir@ + ")"@,
        ],
    }
}

impl LaunchdReport {
    /// The lines of the report, one after the other.
    pub fn lines(&self) -> (result: Vec<String>)
        ensures
            crate::text::strings_of(result@) == report_lines(*self),
    {
        let mut result: Vec<String> = Vec::new();
        match self {
            LaunchdReport::Installed { binary, template, user, member_added } => {
                result.push("wgd privileged daemon installed.".to_string());
                result.push(prefixed("  binary: ", binary.as_str()));
                result.push(prefixed("  plist:  ", PLIST_PATH));
                if let Some(path) = template {
                    result.push(prefixed("  template: ", path.text.as_str()));
                }
                if *member_added {
                    result.push(
                        framed(
                            "Added ",
                            user.as_str(),
                            " to the wgd group. If wgd reports permission denied when connecting to the daemon, log out and back in for group membership to take effect.",
                        ),
                    );
                }
            },
            LaunchdReport::Restarted => {
                result.push("wgd privileged daemon restarted.".to_string());
            },
            LaunchdReport::Uninstalled { log_dir, socket_dir } => {
                result.push("wgd privileged daemon uninstalled.".to_string());
                result.push(
                    "Intentionally kept (remove with `make purge/privileged` for a full removal):".to_string(),
                );
                result.push("  the wgd binary".to_string());
                result.push("  the wgd group".to_string());
                result.push(prefixed("  ", log_dir.as_str()));
                result.push(framed("  the runtime directory (", socket_dir.as_str(), ")"));
            },
        }
        assert(crate::text::strings_of(result@) =~~= report_lines(*self));
        result
    }
}

/// What a command is waiting for.
#[derive(Debug)]
pub enum LaunchdState {
    Install(InstallState),
    Restart(RestartState),
    Uninstall(UninstallState),
}

impl LaunchdState {
    /// `reply` is of the kind that the command is waiting for.
    pub open spec fn accepts(self, reply: LaunchdReply) -> bool {
        match self {
            LaunchdState::Install(state) => state.accepts(reply),
            LaunchdState::Restart(state) => state.accepts(reply),
            LaunchdState::Uninstall(state) => state.accepts(reply),
        }
    }
}

/// What comes next for a command.
#[derive(Debug)]
pub enum LaunchdTurn {
    /// `note` is to be shown, `op` to be carried out, and its answer handed to
    /// `resume`.
    Do { note: Option<LaunchdNote>, op: LaunchdOp, state: LaunchdState },
    Done(LaunchdReport),
    Failed(LaunchdError),
}

/// Whatever answers the operation of a turn is accepted by its state.
pub open spec fn ready(turn: LaunchdTurn) -> bool {
    turn matches LaunchdTurn::Do { note: _, op, state } ==> forall|reply: LaunchdReply|
        fits(op, reply) ==> state.accepts(reply)
}

} // verus!
