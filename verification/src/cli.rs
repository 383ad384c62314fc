//! The commands that a user can give.

use vstd::prelude::*;

use crate::paths::PathText;
use crate::privileged_api::ConnectionStartMode;

verus! {

/// A start mode, as it is written on the command line.
#[derive(Debug, Clone, Copy, PartialEq, Eq, Structural)]
pub enum StartModeArg {
    Manual,
    Automatic,
}

impl StartModeArg {
    /// The start mode that is meant.
    pub open spec fn mode(self) -> ConnectionStartMode {
        match self {
            StartModeArg::Manual => ConnectionStartMode::Manual,
            StartModeArg::Automatic => ConnectionStartMode::Automatic,
        }
    }
}

/// `connection ...`: stored connections.
#[allow(inconsistent_fields)]
#[derive(Debug)]
pub enum ConnectionCommand {
    Add {
        file: String,
        global: bool,
        name: Option<String>,
        mtu: Option<u16>,
        force: bool,
        start_mode: StartModeArg,
    },
    List { all: bool, global: bool },
    Remove { id: String },
    Connect { id: String, debug: bool },
    Disconnect { id: Option<String>, all: bool },
    Mode { id: String, start_mode: StartModeArg },
    Get { id: String },
    Agent { command: AgentCommand },
}

impl ConnectionCommand {
    /// The command is complete: replacing by name needs the name, and a
    /// disconnect needs a connection unless it means all of them.
    pub open spec fn complete(self) -> bool {
        match self {
            ConnectionCommand::Add { force, name, .. } => force ==> name is Some,
            ConnectionCommand::Disconnect { id, all } => all || id is Some,
            _ => true,
        }
    }
}

/// `launchd agent ...`: the per-user session agent.
#[derive(Debug)]
pub enum AgentCommand {
    Install { force: bool },
    Uninstall,
    Status,
    Run,
}

/// `launchd ...`: the privileged daemon. `Reload` carries what a reload takes.
#[derive(Debug)]
pub enum LaunchdCommand<A> {
    Install { plist_template: Option<PathText> },
    Restart,
    Reload(A),
    Uninstall,
    Agent { command: AgentCommand },
}

} // verus!
