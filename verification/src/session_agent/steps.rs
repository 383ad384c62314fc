//! What the commands on the session agent do to the machine, one operation at a
//! time.

use vstd::prelude::*;

use crate::client::{ClientOp, ClientReply};
use crate::launchctl::{invocation, Invocation, LAUNCHCTL};
use crate::paths::{join_path, PathText};
use crate::privileged_api::ConnectionId;
use crate::session_agent::install::{AgentInstallState, AgentStatusState, AgentUninstallState};
use crate::session_agent::plist::{AgentPlistError, LABEL};
use crate::session_agent::run::RunState;
use crate::text::{decimal_text, framed, prefixed};

verus! {

// ---- names ------------------------------------------------------------------

/// Where launchd looks for the agents of the user whose home is `home`.
pub open spec fn agents_dir(home: Seq<char>) -> Seq<char> {
    crate::paths::path_joined(home, "Library/LaunchAgents"@)
}

/// Where launchd looks for the agents of a user.
pub fn launch_agents_dir(home: &str) -> (result: String)
    ensures
        result@ == agents_dir(home@),
{
    join_path(home, "Library/LaunchAgents")
}

/// Where the agent's plist stands.
pub open spec fn plist_place(home: Seq<char>) -> Seq<char> {
    crate::paths::path_joined(agents_dir(home), LABEL@ + ".plist"@)
}

/// Where the agent's plist stands.
pub fn plist_path(home: &str) -> (result: String)
    ensures
        result@ == plist_place(home@),
{
    let mut name = LABEL.to_string();
    name.append(".plist");
    join_path(launch_agents_dir(home).as_str(), name.as_str())
}

/// The launchd domain of a user's session.
pub open spec fn domain(uid: u32) -> Seq<char> {
    "gui/"@ + crate::text::decimal(uid as nat)
}

/// The launchd domain of a user's session.
pub fn gui_domain(uid: u32) -> (result: String)
    ensures
        result@ == domain(uid),
{
    let mut result = "gui/".to_string();
    result.append(decimal_text(uid as u64).as_str());
    result
}

/// What launchd calls the agent of a user.
pub open spec fn target(uid: u32) -> Seq<char> {
    domain(uid) + "/"@ + LABEL@
}

/// What launchd calls the agent of a user.
pub fn domain_target(uid: u32) -> (result: String)
    ensures
        result@ == target(uid),
{
    let mut result = gui_domain(uid);
    result.append("/");
    result.append(LABEL);
    result
}

// ---- operations -------------------------------------------------------------

/// One operation on the machine.
#[derive(Debug)]
pub enum AgentOp {
    /// Read the variable that names the user's home directory.
    ReadHome,
    /// Find the path of the running binary.
    CurrentExe,
    /// Ask whether a file is there.
    FileExists { path: String },
    /// Create a directory and its parents.
    CreateDir { path: String },
    WriteFile { path: String, contents: String },
    SetMode { path: String, mode: u32 },
    Rename { from: String, to: String },
    RemoveFile { path: String },
    /// Remove a file, if it is there.
    RemoveIfPresent { path: String },
    /// Have launchd end the agent, by the signal that it waits for.
    Bootout { uid: u32 },
    /// Have launchd accept the agent again.
    Enable { uid: u32 },
    /// Have launchd load the plist.
    Bootstrap { uid: u32, plist: String },
    /// Ask launchd whether it has the agent loaded.
    IsLoaded { uid: u32 },
    /// Hold the terminating signal back, so that it waits to be asked for.
    BlockSigterm,
    /// Wait for a signal, and tell whether it is the terminating one.
    WaitSignal,
    /// Ask the privileged daemon.
    Client(ClientOp),
}

/// The answer to an operation. An error is given in words.
#[derive(Debug)]
pub enum AgentReply {
    Var(Result<String, String>),
    Path(Result<PathText, String>),
    Exists(bool),
    Done(Result<(), String>),
    /// Whether a program ended well, or why it could not be run.
    Status(Result<bool, String>),
    Signal(Result<bool, String>),
    Client(ClientReply),
}

/// `reply` is of the kind that answers `op`.
pub open spec fn fits(op: AgentOp, reply: AgentReply) -> bool {
    match op {
        AgentOp::ReadHome => reply is Var,
        AgentOp::CurrentExe => reply is Path,
        AgentOp::FileExists { .. } => reply is Exists,
        AgentOp::IsLoaded { .. } => reply is Status,
        AgentOp::WaitSignal => reply is Signal,
        AgentOp::Client(op) => reply matches AgentReply::Client(answer) && crate::client::answers(
            op,
            answer,
        ),
        _ => reply is Done,
    }
}

impl AgentOp {
    /// The arguments that the operation gives to launchctl, if it runs it.
    pub open spec fn args(self) -> Option<Seq<Seq<char>>> {
        match self {
            AgentOp::Bootout { uid } => Some(seq!["bootout"@, target(uid)]),
            AgentOp::Enable { uid } => Some(seq!["enable"@, target(uid)]),
            AgentOp::Bootstrap { uid, plist } => Some(seq!["bootstrap"@, domain(uid), plist@]),
            AgentOp::IsLoaded { uid } => Some(seq!["print"@, target(uid)]),
            _ => None,
        }
    }

    /// The program that the operation runs, with its arguments, if it runs one.
    pub fn invocation(&self) -> (result: Option<Invocation>)
        ensures
            match result {
                Some(run) => self.args() matches Some(args) && run.runs(LAUNCHCTL@, args),
                None => self.args() is None,
            },
    {
        let result = match self {
            AgentOp::Bootout { uid } => Some(
                invocation(LAUNCHCTL).with("bootout").with(domain_target(*uid).as_str()),
            ),
            AgentOp::Enable { uid } => Some(
                invocation(LAUNCHCTL).with("enable").with(domain_target(*uid).as_str()),
            ),
            AgentOp::Bootstrap { uid, plist } => Some(
                invocation(LAUNCHCTL).with("bootstrap").with(gui_domain(*uid).as_str()).with(
                    plist.as_str(),
                ),
            ),
            AgentOp::IsLoaded { uid } => Some(
                invocation(LAUNCHCTL).with("print").with(domain_target(*uid).as_str()),
            ),
            _ => None,
        };
        proof {
            if result is Some {
                assert(crate::text::strings_of(result->0.args@) =~= self.args()->0);
            }
        }
        result
    }
}

// ---- what is said -----------------------------------------------------------

/// Why a command on the agent did not go through. `cause` is what the operating
/// system or a program said.
#[derive(Debug)]
pub enum AgentError {
    AsRoot,
    NoHome { cause: String },
    ExeUnknown { cause: String },
    NotUtf8 { path: String },
    AlreadyInstalled { path: String },
    Plist(AgentPlistError),
    CreateFailed { path: String, cause: String },
    WriteFailed { path: String, cause: String },
    ChmodFailed { path: String, cause: String },
    InstallFailed { path: String, cause: String },
    ProgramFailed { cause: String },
    RemoveFailed { cause: String },
    NotBlocked { cause: String },
    WaitFailed { cause: String },
}

impl AgentError {
    /// The error in words.
    pub open spec fn text(self) -> Seq<char> {
        match self {
            AgentError::AsRoot =>
                "run `wgd launchd agent install` as your normal user, not with sudo (the session agent is per-user)"@,
            AgentError::NoHome { cause: _ } => "could not determine $HOME"@,
            AgentError::ExeUnknown { cause: _ } =>
                "failed to determine the running wgd binary path"@,
            AgentError::NotUtf8 { path } => "wgd binary path is not valid UTF-8: "@ + path@,
            AgentError::AlreadyInstalled { path } => "session agent already installed at "@ + path@
                + "; re-run with --force to overwrite and reload"@,
            AgentError::Plist(error) => error.text(),
            AgentError::CreateFailed { path, cause: _ } => "failed to create "@ + path@,
            AgentError::WriteFailed { path, cause: _ } => "failed to write "@ + path@,
            AgentError::ChmodFailed { path, cause: _ } => "failed to chmod "@ + path@,
            AgentError::InstallFailed { path, cause: _ } => "failed to install "@ + path@,
            AgentError::ProgramFailed { cause } => cause@,
            AgentError::RemoveFailed { cause } => cause@,
            AgentError::NotBlocked { cause: _ } => "failed to block SIGTERM"@,
            AgentError::WaitFailed { cause: _ } => "failed to wait for SIGTERM"@,
        }
    }

    /// The error in words.
    pub fn message(&self) -> (result: String)
        ensures
            result@ == self.text(),
    {
        match self {
            AgentError::AsRoot =>
                "run `wgd launchd agent install` as your normal user, not with sudo (the session agent is per-user)".to_string(),
            AgentError::NoHome { cause: _ } => "could not determine $HOME".to_string(),
            AgentError::ExeUnknown { cause: _ } =>
                "failed to determine the running wgd binary path".to_string(),
            AgentError::NotUtf8 { path } => prefixed(
                "wgd binary path is not valid UTF-8: ",
                path.as_str(),
            ),
            AgentError::AlreadyInstalled { path } => framed(
                "session agent already installed at ",
                path.as_str(),
                "; re-run with --force to overwrite and reload",
            ),
            AgentError::Plist(error) => error.message(),
            AgentError::CreateFailed { path, cause: _ } => prefixed(
                "failed to create ",
                path.as_str(),
            ),
            AgentError::WriteFailed { path, cause: _ } => prefixed(
                "failed to write ",
                path.as_str(),
            ),
            AgentError::ChmodFailed { path, cause: _ } => prefixed(
                "failed to chmod ",
                path.as_str(),
            ),
            AgentError::InstallFailed { path, cause: _ } => prefixed(
                "failed to install ",
                path.as_str(),
            ),
            AgentError::ProgramFailed { cause } => cause.clone(),
            AgentError::RemoveFailed { cause } => cause.clone(),
            AgentError::NotBlocked { cause: _ } => "failed to block SIGTERM".to_string(),
            AgentError::WaitFailed { cause: _ } => "failed to wait for SIGTERM".to_string(),
        }
    }

    /// What lies behind the error, where the error does not say it itself.
    pub open spec fn behind(self) -> Option<String> {
        match self {
            AgentError::NoHome { cause } => Some(cause),
            AgentError::ExeUnknown { cause } => Some(cause),
            AgentError::CreateFailed { path: _, cause } => Some(cause),
            AgentError::WriteFailed { path: _, cause } => Some(cause),
            AgentError::ChmodFailed { path: _, cause } => Some(cause),
            AgentError::InstallFailed { path: _, cause } => Some(cause),
            AgentError::NotBlocked { cause } => Some(cause),
            AgentError::WaitFailed { cause } => Some(cause),
            _ => None,
        }
    }

    /// What lies behind the error, where the error does not say it itself.
    pub fn cause(&self) -> (result: Option<String>)
        ensures
            result == self.behind(),
    {
        match self {
            AgentError::NoHome { cause } => Some(cause.clone()),
            AgentError::ExeUnknown { cause } => Some(cause.clone()),
            AgentError::CreateFailed { path: _, cause } => Some(cause.clone()),
            AgentError::WriteFailed { path: _, cause } => Some(cause.clone()),
            AgentError::ChmodFailed { path: _, cause } => Some(cause.clone()),
            AgentError::InstallFailed { path: _, cause } => Some(cause.clone()),
            AgentError::NotBlocked { cause } => Some(cause.clone()),
            AgentError::WaitFailed { cause } => Some(cause.clone()),
            _ => None,
        }
    }
}

/// What went wrong on the way without stopping the agent.
#[derive(Debug)]
pub enum AgentNote {
    ListFailed { cause: String },
    ConnectFailed { id: ConnectionId, cause: String },
    TeardownListFailed { cause: String },
    DisconnectFailed { id: ConnectionId, cause: String },
}

/// What a command reports when it went through.
#[derive(Debug)]
pub enum AgentReport {
    Installed { plist: String, binary: String },
    Uninstalled { plist: String },
    NotInstalled,
    Present { plist: String, loaded: bool },
    /// The agent ran to its end.
    Ended,
}

/// The lines of a report, one after the other.
pub open spec fn report_lines(report: AgentReport) -> Seq<Seq<char>> {
    match report {
        AgentReport::Installed { plist, binary } => seq![
            "wgd session agent installed."@,
            "  plist:  "@ + plist@,
            "  binary: "@ + binary@,
            "  it will connect every `Automatic` connection owned by this user on login (`wgd connection mode <id> automatic`) and disconnect them again on logout."@,
        ],
        AgentReport::Uninstalled { plist } => seq![
            "wgd session agent uninstalled."@,
            "  plist: "@ + plist@,
        ],
        AgentReport::NotInstalled => seq!["No session agent installed."@],
        AgentReport::Present { plist, loaded } => seq![
            (if loaded {
                "🟢  "@
            } else {
                "🔘  "@
            }) + plist@,
        ],
        AgentReport::Ended => Seq::empty(),
    }
}

impl AgentReport {
    /// The lines of the report, one after the other.
    pub fn lines(&self) -> (result: Vec<String>)
        ensures
            crate::text::strings_of(result@) == report_lines(*self),
    {
        let mut result: Vec<String> = Vec::new();
        match self {
            AgentReport::Installed { plist, binary } => {
                result.push("wgd session agent installed.".to_string());
                result.push(prefixed("  plist:  ", plist.as_str()));
                result.push(prefixed("  binary: ", binary.as_str()));
                result.push(
                    "  it will connect every `Automatic` connection owned by this user on login (`wgd connection mode <id> automatic`) and disconnect them again on logout.".to_string(),
                );
            },
            AgentReport::Uninstalled { plist } => {
                result.push("wgd session agent uninstalled.".to_string());
                result.push(prefixed("  plist: ", plist.as_str()));
            },
            AgentReport::NotInstalled => {
                result.push("No session agent installed.".to_string());
            },
            AgentReport::Present { plist, loaded } => {
                let marker = if *loaded {
                    "🟢  "
                } else {
                    "🔘  "
                };
                result.push(prefixed(marker, plist.as_str()));
            },
            AgentReport::Ended => {},
        }
        assert(crate::text::strings_of(result@) =~= report_lines(*self));
        result
    }
}

// ---- turns ------------------------------------------------------------------

/// What a command is waiting for.
#[derive(Debug)]
pub enum AgentState {
    Install(AgentInstallState),
    Uninstall(AgentUninstallState),
    Status(AgentStatusState),
    Run(RunState),
}

impl AgentState {
    /// `reply` is of the kind that the command is waiting for.
    pub open spec fn accepts(self, reply: AgentReply) -> bool {
        match self {
            AgentState::Install(state) => state.accepts(reply),
            AgentState::Uninstall(state) => state.accepts(reply),
            AgentState::Status(state) => state.accepts(reply),
            AgentState::Run(state) => state.accepts(reply),
        }
    }
}

/// What comes next for a command.
#[derive(Debug)]
pub enum AgentTurn {
    /// `note` is to be logged, `op` to be carried out, and its answer handed to
    /// `resume`.
    Do { note: Option<AgentNote>, op: AgentOp, state: AgentState },
    Done { note: Option<AgentNote>, report: AgentReport },
    Failed(AgentError),
}

/// Whatever answers the operation of a turn is accepted by its state.
pub open spec fn ready(turn: AgentTurn) -> bool {
    turn matches AgentTurn::Do { note: _, op, state } ==> forall|reply: AgentReply|
        fits(op, reply) ==> state.accepts(reply)
}

/// What the operating system or a program said to cause the error.
pub open spec fn told_cause(error: AgentError) -> Option<String> {
    match error {
        AgentError::NoHome { cause } => Some(cause),
        AgentError::ExeUnknown { cause } => Some(cause),
        AgentError::CreateFailed { path: _, cause } => Some(cause),
        AgentError::WriteFailed { path: _, cause } => Some(cause),
        AgentError::ChmodFailed { path: _, cause } => Some(cause),
        AgentError::InstallFailed { path: _, cause } => Some(cause),
        AgentError::ProgramFailed { cause } => Some(cause),
        AgentError::RemoveFailed { cause } => Some(cause),
        AgentError::NotBlocked { cause } => Some(cause),
        AgentError::WaitFailed { cause } => Some(cause),
        _ => None,
    }
}

/// No cause is lost: an error with a cause is told in the words of the cause, or with the
/// cause behind it; and no other error has one behind it.
pub proof fn causes_are_told(error: AgentError)
    ensures
        match told_cause(error) {
            Some(cause) => error.behind() == Some(cause) || (error.behind() is None && error.text()
                == cause@),
            None => error.behind() is None,
        },
{
}

} // verus!
