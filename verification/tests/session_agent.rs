//! The session agent and the commands on it, run against a session in memory.

use wgd::cli::AgentCommand;
use wgd::client::{ClientOp, ClientReply};
use wgd::paths::PathText;
use wgd::privileged_api::{
    ConnectReason, ConnectionId, ConnectionScope, ConnectionStartMode, ConnectionSummary,
    DisconnectReason,
};
use wgd::session_agent::candidates::{connect_candidates, skipped_connections};
use wgd::session_agent::install::{
    cmd_install, cmd_status, cmd_uninstall, install_as, is_loaded, refuse_if_root,
    refuse_if_root_as, reinstall, status_as, uninstall_as,
};
use wgd::session_agent::plist::{
    render_plist, AgentPlistError, BIN_PLACEHOLDER, HOME_PLACEHOLDER, LABEL, PLIST_TEMPLATE,
};
use wgd::session_agent::run::run;
use wgd::session_agent::steps::{
    AgentError, AgentNote, AgentOp, AgentReply, AgentReport, AgentTurn,
};
use wgd::session_agent::{dispatch, dispatch_as, resume};

fn sample(
    id: &str,
    start_mode: ConnectionStartMode,
    connected: bool,
    user_disconnected: bool,
) -> ConnectionSummary {
    ConnectionSummary {
        id: ConnectionId {
            text: id.to_string(),
        },
        global: false,
        owner_uid: Some(501),
        start_mode,
        name: None,
        interface: "wg-aaaaaaaa".to_string(),
        connected,
        user_disconnected,
        addresses: Vec::new(),
        dns_servers: Vec::new(),
        mtu: None,
        peers: Vec::new(),
        fingerprint: None,
        created_at: 0,
        updated_at: 0,
    }
}

#[test]
fn connect_candidates_selects_only_automatic_disconnected_and_not_user_disconnected() {
    let automatic_down = sample("a", ConnectionStartMode::Automatic, false, false);
    let manual_down = sample("b", ConnectionStartMode::Manual, false, false);
    let automatic_up = sample("c", ConnectionStartMode::Automatic, true, false);
    // The regression case this exists for: an `Automatic` connection the user
    // explicitly disconnected must not come back just because the agent
    // process bounced.
    let automatic_user_disconnected = sample("d", ConnectionStartMode::Automatic, false, true);

    let candidates = connect_candidates(&[
        automatic_down.clone(),
        manual_down,
        automatic_up,
        automatic_user_disconnected,
    ]);
    assert_eq!(candidates, vec![automatic_down.id]);
}

#[test]
fn connect_candidates_is_empty_for_no_connections() {
    assert_eq!(connect_candidates(&[]), Vec::new());
}

#[test]
fn render_plist_substitutes_all() {
    let rendered = render_plist(PLIST_TEMPLATE, "/opt/homebrew/bin/wgd", "/Users/andi")
        .expect("render succeeds");

    assert!(rendered.contains("/opt/homebrew/bin/wgd"));
    assert!(rendered.contains("/Users/andi"));
    assert!(!rendered.contains(BIN_PLACEHOLDER));
    assert!(!rendered.contains(HOME_PLACEHOLDER));
    assert!(rendered.contains(LABEL));
}

#[test]
fn render_errors_when_placeholder_missing() {
    let template = PLIST_TEMPLATE.replace(BIN_PLACEHOLDER, "/usr/local/bin/wgd");
    let err = render_plist(&template, "/opt/homebrew/bin/wgd", "/Users/andi")
        .expect_err("missing bin placeholder should error");
    assert!(err.message().contains(BIN_PLACEHOLDER));
}

#[test]
fn render_escapes_special_chars() {
    let rendered = render_plist(PLIST_TEMPLATE, "/opt/homebrew/bin/wgd", "/Users/a&b")
        .expect("render succeeds");
    assert!(rendered.contains("/Users/a&amp;b"));
    assert!(!rendered.contains("/Users/a&b\""));
}

#[test]
fn refuse_if_root_when_root() {
    if nix::unistd::geteuid().is_root() {
        let err = refuse_if_root().expect_err("must refuse when root");
        assert!(err.message().contains("not with sudo"));
    } else {
        refuse_if_root().expect("must be a no-op when not root");
    }
}

// ---- further cases ----------------------------------------------------------

#[test]
fn candidates_keep_their_order() {
    let automatic = |id: &str| sample(id, ConnectionStartMode::Automatic, false, false);
    let ids: Vec<String> = connect_candidates(&[
        automatic("b"),
        sample("x", ConnectionStartMode::Manual, false, false),
        automatic("a"),
        automatic("b"),
    ])
    .into_iter()
    .map(|id| id.text)
    .collect();
    assert_eq!(ids, ["b", "a", "b"]);

    let taken_down = |id: &str, mode, connected| sample(id, mode, connected, true);
    let ids: Vec<String> = skipped_connections(&[
        automatic("a"),
        taken_down("d", ConnectionStartMode::Automatic, false),
        taken_down("m", ConnectionStartMode::Manual, false),
        taken_down("u", ConnectionStartMode::Automatic, true),
        taken_down("c", ConnectionStartMode::Automatic, false),
    ])
    .into_iter()
    .map(|id| id.text)
    .collect();
    assert_eq!(ids, ["d", "c"]);
}

#[test]
fn agent_rendering_fails_closed() {
    let template = format!("{LABEL} {BIN_PLACEHOLDER} {HOME_PLACEHOLDER}");
    assert_eq!(
        render_plist(&template, "/a<b", "/c>d").unwrap(),
        format!("{LABEL} /a&lt;b /c&gt;d")
    );
    for (template, bin, home, error, message) in [
        (
            "@WGD_HOME@",
            "/b",
            "/h",
            AgentPlistError::NoBinaryPlaceholder,
            "plist template is missing the @WGD_BIN@ placeholder",
        ),
        (
            "@WGD_BIN@",
            "/b",
            "/h",
            AgentPlistError::NoHomePlaceholder,
            "plist template is missing the @WGD_HOME@ placeholder",
        ),
        (
            template.as_str(),
            "@WGD_BIN@",
            "/h",
            AgentPlistError::BinaryPlaceholderLeft,
            "rendered plist still contains @WGD_BIN@",
        ),
        (
            template.as_str(),
            "/b",
            "@WGD_HOME@",
            AgentPlistError::HomePlaceholderLeft,
            "rendered plist still contains @WGD_HOME@",
        ),
        (
            "@WGD_BIN@ @WGD_HOME@",
            "/b",
            "/h",
            AgentPlistError::NoLabel,
            "rendered plist is missing the expected launchd Label `me.pansen.wgd.session-agent` (custom template?)",
        ),
    ] {
        let err = render_plist(template, bin, home).unwrap_err();
        assert_eq!(err, error);
        assert_eq!(err.message(), message);
    }
    // A home that stands in the binary's path is filled in, too.
    assert_eq!(
        render_plist(&template, "/@WGD_HOME@", "/h").unwrap(),
        format!("{LABEL} //h /h")
    );
}

/// A session in which everything goes well, but for what a test changes.
struct Session {
    home: Result<String, String>,
    exact: bool,
    installed: bool,
    loaded: Result<bool, String>,
    failing: Option<&'static str>,
    signals: Vec<Result<bool, String>>,
    connections: Vec<ConnectionSummary>,
    stuck: Vec<String>,
    log: Vec<String>,
}

impl Session {
    fn new() -> Session {
        Session {
            home: Ok("/Users/andi".to_string()),
            exact: true,
            installed: false,
            loaded: Ok(true),
            failing: None,
            signals: vec![Ok(true)],
            connections: Vec::new(),
            stuck: Vec::new(),
            log: Vec::new(),
        }
    }

    fn perform(&mut self, op: AgentOp) -> AgentReply {
        let told = format!("{op:?}");
        let name = told.split([' ', '(']).next().unwrap_or_default().to_string();
        self.log.push(told);
        let failing = self.failing == Some(name.as_str());
        match op {
            AgentOp::ReadHome => AgentReply::Var(self.home.clone()),
            AgentOp::CurrentExe => AgentReply::Path(if failing {
                Err("no exe".to_string())
            } else {
                Ok(PathText {
                    text: "/usr/local/bin/wgd".to_string(),
                    bytes: if self.exact {
                        b"/usr/local/bin/wgd".to_vec()
                    } else {
                        b"/usr/local/bin/w\xff".to_vec()
                    },
                })
            }),
            AgentOp::FileExists { path: _ } => AgentReply::Exists(self.installed),
            AgentOp::IsLoaded { uid: _ } => AgentReply::Status(self.loaded.clone()),
            AgentOp::WaitSignal => AgentReply::Signal(self.signals.remove(0)),
            AgentOp::Client(ClientOp::List { scope, autostart }) => {
                assert_eq!(scope, ConnectionScope::Mine);
                assert!(autostart);
                AgentReply::Client(ClientReply::Listed(if self.failing == Some("List") {
                    Err("no daemon".to_string())
                } else {
                    Ok(self.connections.clone())
                }))
            }
            AgentOp::Client(ClientOp::Connect { id, debug, reason }) => {
                assert!(!debug);
                assert_eq!(reason, ConnectReason::Reconciliation);
                AgentReply::Client(ClientReply::Done(self.switch(&id, true)))
            }
            AgentOp::Client(ClientOp::Disconnect {
                id,
                reason,
                autostart,
            }) => {
                assert!(autostart);
                assert_eq!(reason, DisconnectReason::SessionTeardown);
                AgentReply::Client(ClientReply::Done(self.switch(&id, false)))
            }
            AgentOp::Client(other) => panic!("unexpected request {other:?}"),
            _ => AgentReply::Done(if failing {
                Err(format!("{name} failed"))
            } else {
                Ok(())
            }),
        }
    }

    fn switch(&mut self, id: &ConnectionId, connected: bool) -> Result<(), String> {
        if self.stuck.contains(&id.text) {
            return Err("stuck".to_string());
        }
        for conn in self.connections.iter_mut() {
            if conn.id == *id {
                conn.connected = connected;
            }
        }
        Ok(())
    }

    fn go(&mut self, turn: AgentTurn) -> (Vec<AgentNote>, Result<AgentReport, AgentError>) {
        let mut notes = Vec::new();
        let mut turn = turn;
        loop {
            match turn {
                AgentTurn::Do { note, op, state } => {
                    notes.extend(note);
                    turn = resume(state, self.perform(op));
                }
                AgentTurn::Done { note, report } => {
                    notes.extend(note);
                    return (notes, Ok(report));
                }
                AgentTurn::Failed(error) => return (notes, Err(error)),
            }
        }
    }

    fn kinds(&self) -> Vec<&str> {
        self.log
            .iter()
            .map(|told| told.split(' ').next().unwrap())
            .collect()
    }
}

const PLACE: &str = "/Users/andi/Library/LaunchAgents/me.pansen.wgd.session-agent.plist";

#[test]
fn agent_install_goes_through_in_order() {
    let mut session = Session::new();
    let (_, report) = session.go(install_as(501, 501, false));
    assert_eq!(
        report.expect("installs").lines(),
        [
            "wgd session agent installed.".to_string(),
            format!("  plist:  {PLACE}"),
            "  binary: /usr/local/bin/wgd".to_string(),
            "  it will connect every `Automatic` connection owned by this user on login (`wgd connection mode <id> automatic`) and disconnect them again on logout.".to_string(),
        ]
    );
    assert_eq!(
        session.kinds(),
        [
            "ReadHome",
            "CurrentExe",
            "FileExists",
            "CreateDir",
            "WriteFile",
            "SetMode",
            "Rename",
            "Bootout",
            "Enable",
            "Bootstrap",
        ]
    );
    assert_eq!(
        session.log[3],
        "CreateDir { path: \"/Users/andi/Library/LaunchAgents\" }"
    );
    assert_eq!(
        session.log[5],
        format!("SetMode {{ path: \"{PLACE}.tmp\", mode: 420 }}")
    );
    assert_eq!(
        session.log[6],
        format!("Rename {{ from: \"{PLACE}.tmp\", to: \"{PLACE}\" }}")
    );
    assert_eq!(
        session.log[9],
        format!("Bootstrap {{ uid: 501, plist: \"{PLACE}\" }}")
    );
}

#[test]
fn an_installed_agent_is_kept_unless_forced() {
    let mut session = Session::new();
    session.installed = true;
    let (_, result) = session.go(install_as(501, 501, false));
    assert_eq!(
        result.unwrap_err().message(),
        format!(
            "session agent already installed at {PLACE}; re-run with --force to overwrite and reload"
        )
    );
    assert!(!session.kinds().contains(&"CreateDir"));
    let (_, result) = session.go(install_as(501, 501, true));
    assert!(result.is_ok());
}

#[test]
fn agent_install_stops_at_the_first_failure() {
    let draft = format!("{PLACE}.tmp");
    for (failing, message, behind, last) in [
        (
            "CurrentExe",
            "failed to determine the running wgd binary path".to_string(),
            Some("no exe"),
            "CurrentExe",
        ),
        (
            "CreateDir",
            "failed to create /Users/andi/Library/LaunchAgents".to_string(),
            Some("CreateDir failed"),
            "CreateDir",
        ),
        (
            "WriteFile",
            format!("failed to write {draft}"),
            Some("WriteFile failed"),
            "RemoveFile",
        ),
        (
            "SetMode",
            format!("failed to chmod {draft}"),
            Some("SetMode failed"),
            "RemoveFile",
        ),
        (
            "Rename",
            format!("failed to install {PLACE}"),
            Some("Rename failed"),
            "RemoveFile",
        ),
        ("Enable", "Enable failed".to_string(), None, "Enable"),
        (
            "Bootstrap",
            "Bootstrap failed".to_string(),
            None,
            "Bootstrap",
        ),
    ] {
        let mut session = Session::new();
        session.failing = Some(failing);
        let (_, result) = session.go(install_as(501, 501, false));
        let error = result.expect_err("fails");
        assert_eq!(error.message(), message);
        assert_eq!(error.cause().as_deref(), behind);
        assert_eq!(*session.kinds().last().unwrap(), last);
    }
    let mut session = Session::new();
    session.home = Err("not present".to_string());
    let (_, result) = session.go(install_as(501, 501, false));
    assert_eq!(result.unwrap_err().message(), "could not determine $HOME");
    let mut session = Session::new();
    session.exact = false;
    let (_, result) = session.go(install_as(501, 501, false));
    assert_eq!(
        result.unwrap_err().message(),
        "wgd binary path is not valid UTF-8: /usr/local/bin/wgd"
    );
    // Not running is fine.
    let mut session = Session::new();
    session.failing = Some("Bootout");
    let (_, result) = session.go(install_as(501, 501, false));
    assert!(result.is_ok());
}

#[test]
fn agent_uninstall_ends_the_agent_first() {
    let mut session = Session::new();
    session.failing = Some("Bootout");
    let (_, report) = session.go(uninstall_as(501, 501));
    assert_eq!(
        report.expect("uninstalls").lines(),
        [
            "wgd session agent uninstalled.".to_string(),
            format!("  plist: {PLACE}"),
        ]
    );
    assert_eq!(
        session.log,
        [
            "ReadHome".to_string(),
            "Bootout { uid: 501 }".to_string(),
            format!("RemoveIfPresent {{ path: \"{PLACE}\" }}"),
        ]
    );
    let mut session = Session::new();
    session.failing = Some("RemoveIfPresent");
    let (_, result) = session.go(uninstall_as(501, 501));
    assert_eq!(result.unwrap_err().message(), "RemoveIfPresent failed");
}

#[test]
fn agent_status_tells_what_is_there() {
    let mut session = Session::new();
    let (_, report) = session.go(status_as(501));
    assert_eq!(report.unwrap().lines(), ["No session agent installed."]);
    for (loaded, marker) in [
        (Ok(true), "🟢"),
        (Ok(false), "🔘"),
        (Err("no launchctl".to_string()), "🔘"),
    ] {
        let mut session = Session::new();
        session.installed = true;
        session.loaded = loaded;
        let (_, report) = session.go(status_as(501));
        assert_eq!(report.unwrap().lines(), [format!("{marker}  {PLACE}")]);
    }
    assert!(is_loaded(Ok(true)));
    assert!(!is_loaded(Err(String::new())));
}

#[test]
fn the_agent_brings_up_waits_and_takes_down() {
    let mut session = Session::new();
    session.signals = vec![Ok(false), Ok(true)];
    session.connections = vec![
        sample("a", ConnectionStartMode::Automatic, false, false),
        sample("b", ConnectionStartMode::Automatic, false, true),
        sample("c", ConnectionStartMode::Manual, true, false),
        sample("d", ConnectionStartMode::Automatic, false, false),
    ];
    session.stuck = vec!["d".to_string()];
    let (notes, report) = session.go(run());
    assert!(matches!(report, Ok(AgentReport::Ended)));
    assert!(AgentReport::Ended.lines().is_empty());
    assert_eq!(notes.len(), 1);
    assert!(matches!(
        &notes[0],
        AgentNote::ConnectFailed { id, cause } if id.text == "d" && cause == "stuck"
    ));
    let kinds: Vec<String> = session
        .log
        .iter()
        .map(|told| told.split([' ', '{']).next().unwrap().to_string())
        .collect();
    assert_eq!(
        kinds,
        [
            "BlockSigterm",
            "Client(List",
            "Client(Connect",
            "Client(Connect",
            "WaitSignal",
            "WaitSignal",
            "Client(List",
            "Client(Disconnect",
            "Client(Disconnect",
        ]
    );
    assert!(session.connections.iter().all(|conn| !conn.connected));
}

#[test]
fn the_agent_outlives_a_missing_daemon() {
    let mut session = Session::new();
    session.failing = Some("List");
    let (notes, report) = session.go(run());
    assert!(report.is_ok());
    assert!(matches!(&notes[0], AgentNote::ListFailed { cause } if cause == "no daemon"));
    assert!(matches!(&notes[1], AgentNote::TeardownListFailed { cause } if cause == "no daemon"));

    let mut session = Session::new();
    session.connections = vec![sample("a", ConnectionStartMode::Manual, true, false)];
    session.stuck = vec!["a".to_string()];
    let (notes, report) = session.go(run());
    assert!(report.is_ok());
    assert!(matches!(&notes[0], AgentNote::DisconnectFailed { id, .. } if id.text == "a"));
}

#[test]
fn the_agent_needs_its_signal() {
    let mut session = Session::new();
    session.failing = Some("BlockSigterm");
    let (_, result) = session.go(run());
    assert_eq!(result.unwrap_err().message(), "failed to block SIGTERM");
    assert_eq!(session.log, ["BlockSigterm"]);

    let mut session = Session::new();
    session.signals = vec![Err("interrupted".to_string())];
    let (_, result) = session.go(run());
    let error = result.unwrap_err();
    assert_eq!(error.message(), "failed to wait for SIGTERM");
    assert_eq!(error.cause().as_deref(), Some("interrupted"));
}

#[test]
fn the_agent_is_not_for_root() {
    assert!(refuse_if_root_as(501).is_ok());
    assert_eq!(
        refuse_if_root_as(0).unwrap_err().message(),
        "run `wgd launchd agent install` as your normal user, not with sudo (the session agent is per-user)"
    );
    for command in [
        AgentCommand::Install { force: true },
        AgentCommand::Uninstall,
    ] {
        assert!(matches!(
            dispatch_as(0, 0, command),
            AgentTurn::Failed(AgentError::AsRoot)
        ));
    }
    assert!(matches!(
        dispatch_as(0, 0, AgentCommand::Run),
        AgentTurn::Do { .. }
    ));
    let is_root = nix::unistd::geteuid().is_root();
    for turn in [cmd_install(false), reinstall(), cmd_uninstall()] {
        assert_eq!(matches!(turn, AgentTurn::Failed(_)), is_root);
    }
}

#[test]
fn the_agents_domain_is_the_real_users() {
    let uid = nix::unistd::getuid().as_raw();
    for turn in [cmd_status(), dispatch(AgentCommand::Status)] {
        let mut session = Session::new();
        session.installed = true;
        let (_, report) = session.go(turn);
        assert!(report.is_ok());
        assert_eq!(
            session.log.last().unwrap(),
            &format!("IsLoaded {{ uid: {uid} }}")
        );
    }
}

#[test]
fn launchctl_is_run_with_these_arguments() {
    let told = |op: AgentOp| -> String {
        let run = op.invocation().expect("a program");
        format!("{} {}", run.program, run.args.join(" "))
    };
    assert_eq!(
        told(AgentOp::Bootout { uid: 501 }),
        "/bin/launchctl bootout gui/501/me.pansen.wgd.session-agent"
    );
    assert_eq!(
        told(AgentOp::Enable { uid: 0 }),
        "/bin/launchctl enable gui/0/me.pansen.wgd.session-agent"
    );
    assert_eq!(
        told(AgentOp::Bootstrap {
            uid: 501,
            plist: "/p".to_string()
        }),
        "/bin/launchctl bootstrap gui/501 /p"
    );
    assert_eq!(
        told(AgentOp::IsLoaded { uid: 501 }),
        "/bin/launchctl print gui/501/me.pansen.wgd.session-agent"
    );
    assert!(AgentOp::ReadHome.invocation().is_none());
}
