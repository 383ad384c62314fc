//! The connection commands, run against a daemon in memory.

use wgd::cli::{AgentCommand, ConnectionCommand, StartModeArg};
use wgd::client::{ClientOp, ClientReply};
use wgd::connection_cli::steps::{
    print_connections, CliError, CliOp, CliReply, CliReport, CliTurn,
};
use wgd::connection_cli::{dispatch, dispatch_as, resume, CliStart};
use wgd::privileged_api::{
    ConnectReason, ConnectionId, ConnectionScope, ConnectionStartMode, ConnectionSummary,
    DisconnectReason, PeerSummary,
};
use wgd::session_agent::steps::{AgentError, AgentTurn};

fn id(text: &str) -> ConnectionId {
    ConnectionId {
        text: text.to_string(),
    }
}

fn stored(text: &str, name: Option<&str>, global: bool, connected: bool) -> ConnectionSummary {
    ConnectionSummary {
        id: id(text),
        global,
        owner_uid: if global { None } else { Some(501) },
        start_mode: ConnectionStartMode::Manual,
        name: name.map(|name| name.to_string()),
        interface: format!("wg-{text}"),
        connected,
        user_disconnected: false,
        addresses: Vec::new(),
        dns_servers: Vec::new(),
        mtu: None,
        peers: Vec::new(),
        fingerprint: None,
        created_at: 0,
        updated_at: 0,
    }
}

/// A daemon whose ids begin with a `#`.
struct Daemon {
    connections: Vec<ConnectionSummary>,
    file: Result<String, String>,
    stuck: Vec<String>,
    down: bool,
    log: Vec<String>,
}

impl Daemon {
    fn new(connections: Vec<ConnectionSummary>) -> Daemon {
        Daemon {
            connections,
            file: Ok("[Interface]".to_string()),
            stuck: Vec::new(),
            down: false,
            log: Vec::new(),
        }
    }

    fn outcome<T>(&self, id: &ConnectionId, value: T) -> Result<T, String> {
        if self.down || self.stuck.contains(&id.text) {
            Err(format!("{} is stuck", id.text))
        } else {
            Ok(value)
        }
    }

    fn answer(&mut self, op: ClientOp) -> ClientReply {
        match op {
            ClientOp::List { scope, autostart } => {
                assert!(autostart);
                if self.down {
                    return ClientReply::Listed(Err("no daemon".to_string()));
                }
                ClientReply::Listed(Ok(self
                    .connections
                    .iter()
                    .filter(|conn| match scope {
                        ConnectionScope::Mine => !conn.global,
                        ConnectionScope::Global => conn.global,
                        ConnectionScope::All => true,
                    })
                    .cloned()
                    .collect()))
            }
            ClientOp::Add {
                conf_text,
                global,
                start_mode,
                name,
                mtu,
                force: _,
            } => {
                assert_eq!(conf_text, "[Interface]");
                let mut conn = stored("#new", name.as_deref(), global, false);
                conn.start_mode = start_mode;
                conn.mtu = mtu;
                let added = self.outcome(&conn.id, conn.id.clone());
                self.connections.push(conn);
                ClientReply::Added(added)
            }
            ClientOp::Remove { id } => {
                let removed = self.outcome(&id, ());
                if removed.is_ok() {
                    self.connections.retain(|conn| conn.id != id);
                }
                ClientReply::Done(removed)
            }
            ClientOp::Connect {
                id,
                debug: _,
                reason,
            } => {
                assert_eq!(reason, ConnectReason::User);
                ClientReply::Done(self.outcome(&id, ()))
            }
            ClientOp::Disconnect {
                id,
                reason,
                autostart,
            } => {
                assert_eq!(reason, DisconnectReason::User);
                assert!(autostart);
                ClientReply::Done(self.outcome(&id, ()))
            }
            ClientOp::SetMode { id, start_mode: _ } => ClientReply::Done(self.outcome(&id, ())),
            ClientOp::Get { id } => {
                let found = self.connections.iter().find(|conn| conn.id == id).cloned();
                ClientReply::Shown(found.ok_or("connection not found".to_string()))
            }
        }
    }

    fn perform(&mut self, op: CliOp) -> CliReply {
        self.log.push(format!("{op:?}"));
        match op {
            CliOp::ReadFile { path: _ } => CliReply::Text(self.file.clone()),
            CliOp::ParseId { text } => CliReply::Id(if text.starts_with('#') {
                Some(id(&text))
            } else {
                None
            }),
            CliOp::Client(op) => CliReply::Client(self.answer(op)),
        }
    }

    /// What the command says, and how it ends.
    fn run(&mut self, command: ConnectionCommand) -> (Vec<String>, Result<CliReport, CliError>) {
        let CliStart::Connection(first) = dispatch_as(501, 501, command) else {
            panic!("expected a connection command");
        };
        let mut turn = first;
        let mut said = Vec::new();
        loop {
            match turn {
                CliTurn::Do { note, op, state } => {
                    said.extend(note.iter().flat_map(|note| note.lines()));
                    turn = resume(state, self.perform(op));
                }
                CliTurn::Done { note, report } => {
                    said.extend(note.iter().flat_map(|note| note.lines()));
                    said.extend(report.lines());
                    return (said, Ok(report));
                }
                CliTurn::Failed { note, error } => {
                    said.extend(note.iter().flat_map(|note| note.lines()));
                    return (said, Err(error));
                }
            }
        }
    }
}

fn add(name: Option<&str>, force: bool, global: bool) -> ConnectionCommand {
    ConnectionCommand::Add {
        file: "/etc/wg.conf".to_string(),
        global,
        name: name.map(|name| name.to_string()),
        mtu: Some(1280),
        force,
        start_mode: StartModeArg::Automatic,
    }
}

const ADDED: [&str; 2] = [
    "Connection id: #new",
    "  (byte-for-byte-identical resubmissions of this file will return the same id without prompting again)",
];

#[test]
fn add_says_the_id() {
    let mut daemon = Daemon::new(vec![stored("#old", Some("home"), false, false)]);
    let (said, result) = daemon.run(add(Some("home"), false, false));
    assert!(result.is_ok());
    assert_eq!(said, ADDED);
    assert_eq!(daemon.connections.len(), 2);
    assert_eq!(
        daemon.connections[1].start_mode,
        ConnectionStartMode::Automatic
    );
    assert_eq!(daemon.connections[1].mtu, Some(1280));
}

#[test]
fn a_forced_add_clears_away_what_it_replaces() {
    let mut daemon = Daemon::new(vec![
        stored("#old", Some("home"), false, false),
        stored("#other", Some("work"), false, false),
        stored("#everyones", Some("home"), true, false),
        stored("#older", Some("home"), false, false),
    ]);
    let (said, result) = daemon.run(add(Some("home"), true, false));
    assert!(result.is_ok());
    assert_eq!(
        said,
        [
            ADDED[0],
            ADDED[1],
            "Removing stale connection #old (same name \"home\", superseded by #new)",
            "Removing stale connection #older (same name \"home\", superseded by #new)",
        ]
    );
    let left: Vec<&str> = daemon
        .connections
        .iter()
        .map(|conn| conn.id.text.as_str())
        .collect();
    assert_eq!(left, ["#other", "#everyones", "#new"]);

    let mut daemon = Daemon::new(vec![
        stored("#mine", Some("home"), false, false),
        stored("#everyones", Some("home"), true, false),
    ]);
    let (_, result) = daemon.run(add(Some("home"), true, true));
    assert!(result.is_ok());
    let left: Vec<&str> = daemon
        .connections
        .iter()
        .map(|conn| conn.id.text.as_str())
        .collect();
    assert_eq!(left, ["#mine", "#new"]);
}

#[test]
fn add_fails_where_something_fails() {
    let mut daemon = Daemon::new(Vec::new());
    daemon.file = Err("no such file".to_string());
    let (said, result) = daemon.run(add(None, false, false));
    let error = result.unwrap_err();
    assert!(said.is_empty());
    assert_eq!(error.message(), "failed to read /etc/wg.conf");
    assert_eq!(error.cause().as_deref(), Some("no such file"));

    let mut daemon = Daemon::new(Vec::new());
    daemon.down = true;
    let (_, result) = daemon.run(add(None, false, false));
    let error = result.unwrap_err();
    assert_eq!(error.message(), "#new is stuck");
    assert_eq!(error.cause(), None);

    let mut daemon = Daemon::new(vec![stored("#old", Some("home"), false, false)]);
    daemon.stuck = vec!["#old".to_string()];
    let (said, result) = daemon.run(add(Some("home"), true, false));
    assert_eq!(result.unwrap_err().message(), "#old is stuck");
    assert_eq!(said.len(), 3);
}

#[test]
fn lists_are_laid_out() {
    let mut automatic = stored("#b", None, true, true);
    automatic.start_mode = ConnectionStartMode::Automatic;
    let lines = print_connections(&vec![
        stored("#a", Some("home"), false, false),
        automatic,
        stored("#c", Some("a-name-beyond-twenty-columns"), false, true),
    ]);
    assert_eq!(
        lines,
        [
            "#a  home                  global=false  owner=501     mode=Manual     connected=false  interface=wg-#a",
            "#b  -                     global=true   owner=-       mode=Automatic  connected=true   interface=wg-#b",
            "#c  a-name-beyond-twenty-columns  global=false  owner=501     mode=Manual     connected=true   interface=wg-#c",
        ]
    );
    assert_eq!(print_connections(&Vec::new()), ["No stored connections."]);
}

#[test]
fn list_asks_for_the_right_ones() {
    for (all, global, count) in [
        (false, false, 1),
        (false, true, 2),
        (true, false, 3),
        (true, true, 3),
    ] {
        let mut daemon = Daemon::new(vec![
            stored("#a", None, false, false),
            stored("#b", None, true, false),
            stored("#c", None, true, false),
        ]);
        let (said, _) = daemon.run(ConnectionCommand::List { all, global });
        assert_eq!(said.len(), count);
    }
    let mut daemon = Daemon::new(Vec::new());
    daemon.down = true;
    let (_, result) = daemon.run(ConnectionCommand::List {
        all: false,
        global: false,
    });
    assert_eq!(result.unwrap_err().message(), "no daemon");
}

fn remove(name: &str) -> ConnectionCommand {
    ConnectionCommand::Remove {
        id: name.to_string(),
    }
}

#[test]
fn names_are_resolved_among_ones_own_first() {
    let mine = stored("#mine", Some("home"), false, false);
    let everyones = stored("#everyones", Some("home"), true, false);
    let mut daemon = Daemon::new(vec![everyones.clone(), mine.clone()]);
    let (said, _) = daemon.run(remove("home"));
    assert_eq!(said, ["Removed connection #mine"]);
    let (said, _) = daemon.run(remove("home"));
    assert_eq!(said, ["Removed connection #everyones"]);
    let (_, result) = daemon.run(remove("ho\"me"));
    assert_eq!(
        result.unwrap_err().message(),
        "no connection named \"ho\\\"me\" (and it is not a valid connection id)"
    );

    let mut daemon = Daemon::new(vec![mine.clone(), mine, everyones]);
    let (_, result) = daemon.run(remove("home"));
    assert_eq!(
        result.unwrap_err().message(),
        "connection name \"home\" is ambiguous (2 matches); use the connection id instead"
    );
    assert!(!daemon.log.iter().any(|told| told.contains("Global")));
}

#[test]
fn an_id_is_not_looked_up() {
    let mut daemon = Daemon::new(Vec::new());
    let (said, _) = daemon.run(ConnectionCommand::Connect {
        id: "#a".to_string(),
        debug: true,
    });
    assert_eq!(said, ["Connected #a"]);
    assert_eq!(daemon.log.len(), 2);
    assert!(daemon.log[1].contains("debug: true"));
    let (said, _) = daemon.run(ConnectionCommand::Disconnect {
        id: Some("#a".to_string()),
        all: false,
    });
    assert_eq!(said, ["Disconnected #a"]);
    let (said, _) = daemon.run(ConnectionCommand::Mode {
        id: "#a".to_string(),
        start_mode: StartModeArg::Automatic,
    });
    assert_eq!(said, ["Set #a start mode to Automatic"]);
    daemon.stuck = vec!["#a".to_string()];
    let (said, result) = daemon.run(remove("#a"));
    assert!(said.is_empty());
    assert_eq!(result.unwrap_err().message(), "#a is stuck");
}

#[test]
fn a_connection_is_shown() {
    let mut conn = stored("#a", Some("home"), false, true);
    conn.addresses = vec!["10.0.0.2/32".to_string(), "fd00::2/128".to_string()];
    conn.dns_servers = vec!["1.1.1.1".to_string()];
    conn.mtu = Some(1420);
    conn.fingerprint = Some("abc".to_string());
    conn.created_at = 17;
    conn.updated_at = u64::MAX;
    conn.peers = vec![
        PeerSummary {
            public_key: "key=".to_string(),
            allowed_ips: vec!["0.0.0.0/0".to_string(), "::/0".to_string()],
            endpoint: Some("198.51.100.1:51820".to_string()),
            has_preshared_key: true,
        },
        PeerSummary {
            public_key: "other=".to_string(),
            allowed_ips: Vec::new(),
            endpoint: None,
            has_preshared_key: false,
        },
    ];
    let mut daemon = Daemon::new(vec![conn, stored("#b", None, true, false)]);
    let (said, _) = daemon.run(ConnectionCommand::Get {
        id: "home".to_string(),
    });
    assert_eq!(
        said,
        [
            "id:          #a",
            "name:        home",
            "global:      false",
            "owner_uid:   501",
            "start_mode:  Manual",
            "interface:   wg-#a",
            "connected:   true",
            "addresses:   10.0.0.2/32, fd00::2/128",
            "dns_servers: 1.1.1.1",
            "mtu:         1420",
            "fingerprint: abc",
            "peers:",
            "  key=  allowed_ips=[0.0.0.0/0, ::/0]  endpoint=198.51.100.1:51820  has_preshared_key=true",
            "  other=  allowed_ips=[]  endpoint=-  has_preshared_key=false",
            "created_at:  17",
            "updated_at:  18446744073709551615",
        ]
    );
    let (said, _) = daemon.run(ConnectionCommand::Get {
        id: "#b".to_string(),
    });
    assert_eq!(
        said,
        [
            "id:          #b",
            "name:        -",
            "global:      true",
            "owner_uid:   -",
            "start_mode:  Manual",
            "interface:   wg-#b",
            "connected:   false",
            "addresses:   ",
            "dns_servers: ",
            "mtu:         -",
            "peers:",
            "created_at:  0",
            "updated_at:  0",
        ]
    );
}

fn disconnect_all() -> ConnectionCommand {
    ConnectionCommand::Disconnect {
        id: None,
        all: true,
    }
}

#[test]
fn disconnecting_all_goes_on_past_failures() {
    let mut daemon = Daemon::new(vec![
        stored("#a", None, false, true),
        stored("#b", None, false, false),
        stored("#c", None, false, true),
        stored("#everyones", None, true, true),
    ]);
    let (said, result) = daemon.run(disconnect_all());
    assert!(result.is_ok());
    assert_eq!(said, ["Disconnected #a", "Disconnected #c"]);

    daemon.stuck = vec!["#a".to_string()];
    let (said, result) = daemon.run(disconnect_all());
    assert_eq!(
        said,
        ["Failed to disconnect #a: #a is stuck", "Disconnected #c"]
    );
    assert_eq!(
        result.unwrap_err().message(),
        "one or more connections failed to disconnect"
    );

    let mut daemon = Daemon::new(vec![stored("#b", None, false, false)]);
    let (said, result) = daemon.run(disconnect_all());
    assert!(result.is_ok());
    assert_eq!(said, ["Not connected."]);
}

#[test]
fn start_modes_carry_over() {
    assert_eq!(
        ConnectionStartMode::from(StartModeArg::Manual),
        ConnectionStartMode::Manual
    );
    assert_eq!(
        ConnectionStartMode::from(StartModeArg::Automatic),
        ConnectionStartMode::Automatic
    );
}

#[test]
fn agent_commands_go_to_the_agent() {
    let start = dispatch_as(
        0,
        0,
        ConnectionCommand::Agent {
            command: AgentCommand::Uninstall,
        },
    );
    assert!(matches!(
        start,
        CliStart::Agent(AgentTurn::Failed(AgentError::AsRoot))
    ));
    let start = dispatch(ConnectionCommand::Agent {
        command: AgentCommand::Run,
    });
    assert!(matches!(start, CliStart::Agent(AgentTurn::Do { .. })));
}
