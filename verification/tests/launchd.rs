//! The commands on the privileged daemon, run against a machine in memory.

use wgd::cli::{AgentCommand, LaunchdCommand};
use wgd::client::{ClientOp, ClientReply};
use wgd::launchctl::xml_escape;
use wgd::launchd::failure::LaunchdError;
use wgd::launchd::install::{
    authorization_right_registered, cmd_install, install_as, invoking_user, register_right_as,
    DirectoryState, InstallState,
};
use wgd::launchd::location::{validate_binary_location, LocationFault};
use wgd::launchd::plist::{
    render_plist_from, PlistError, BIN_PLACEHOLDER, LABEL, PLIST_TEMPLATE, SOCK_GROUP_MARKER,
};
use wgd::launchd::restart::{cmd_restart, require_root, require_root_as, restart_as};
use wgd::launchd::steps::{
    LaunchdOp, LaunchdReply, LaunchdReport, LaunchdState, LaunchdTurn, Places, Registration,
};
use wgd::launchd::uninstall::{cmd_uninstall, uninstall_as};
use wgd::launchd::{dispatch, dispatch_as, resume, LaunchdStart};
use wgd::paths::PathText;
use wgd::privileged_api::{
    ConnectionId, ConnectionScope, ConnectionStartMode, ConnectionSummary, DisconnectReason,
};
use wgd::session_agent::steps::AgentTurn;

/// A path by its bytes.
fn raw(bytes: &[u8]) -> PathText {
    PathText {
        text: String::from_utf8_lossy(bytes).into_owned(),
        bytes: bytes.to_vec(),
    }
}

fn path(text: &str) -> PathText {
    raw(text.as_bytes())
}

#[test]
fn require_root_errors_when_not_root() {
    // No-op under a root test runner (e.g. CI running as root); the point of
    // this test is the non-root case, which is how tests normally run.
    if nix::unistd::geteuid().is_root() {
        return;
    }
    let err = require_root("install").expect_err("must not be root");
    assert!(err.message().contains("sudo wgd launchd install"));
}

#[test]
fn render_plist_substitutes_binary_and_gid() {
    let rendered =
        render_plist_from(PLIST_TEMPLATE, "/opt/homebrew/bin/wgd", 499).expect("render succeeds");

    assert!(rendered.contains("<key>SockPathGroup</key>"));
    assert!(rendered.contains("<integer>499</integer>"));
    assert!(rendered.contains("/opt/homebrew/bin/wgd"));
    assert!(!rendered.contains(BIN_PLACEHOLDER));
    assert!(!rendered.contains("@SOCK_PATH_GROUP@"));
    assert!(rendered.contains("me.pansen.wgd.privileged"));
    assert!(rendered.contains("SockPathMode"));
}

#[test]
fn render_plist_errors_when_bin_placeholder_missing() {
    let template = PLIST_TEMPLATE.replace(BIN_PLACEHOLDER, "/usr/local/bin/wgd");
    let err = render_plist_from(&template, "/opt/homebrew/bin/wgd", 499)
        .expect_err("missing bin placeholder should error");
    assert!(err.message().contains(BIN_PLACEHOLDER));
}

#[test]
fn render_plist_errors_when_sock_group_marker_missing() {
    let template = PLIST_TEMPLATE.replace(SOCK_GROUP_MARKER, "");
    let err = render_plist_from(&template, "/opt/homebrew/bin/wgd", 499)
        .expect_err("missing marker should error");
    assert!(err.message().contains(SOCK_GROUP_MARKER));
}

#[test]
fn render_rejects_template_without_label() {
    let modified = PLIST_TEMPLATE.replace(LABEL, "me.pansen.wgd.evil");
    let err = render_plist_from(&modified, "/usr/local/bin/wgd", 20)
        .expect_err("missing expected Label should error");
    assert!(err.message().contains("Label"));
}

#[test]
fn render_escapes_binary_path() {
    let rendered =
        render_plist_from(PLIST_TEMPLATE, "/opt/t&t/bin/wgd", 20).expect("render succeeds");
    assert!(rendered.contains("/opt/t&amp;t/bin/wgd"));
    assert!(!rendered.contains("t&t/bin"));
}

#[test]
fn rejects_user_home_directory() {
    assert!(validate_binary_location(
        &path("/Users/andi/p/wgd/target/release/wgd"),
        &path("/Users/andi/p/wgd/target/release/wgd"),
        None,
    )
    .is_err());
}

#[test]
fn rejects_tmp() {
    assert!(validate_binary_location(&path("/tmp/wgd"), &path("/tmp/wgd"), None).is_err());
}

#[test]
fn rejects_var_folders() {
    assert!(validate_binary_location(
        &path("/private/var/folders/xx/wgd"),
        &path("/private/var/folders/xx/wgd"),
        None,
    )
    .is_err());
}

#[test]
fn rejects_var_tmp() {
    assert!(validate_binary_location(&path("/var/tmp/wgd"), &path("/private/var/tmp/wgd"), None).is_err());
}

#[test]
fn rejects_relative_path() {
    assert!(validate_binary_location(&path("wgd"), &path("wgd"), None).is_err());
}

#[test]
fn rejects_symlink_resolving_into_home_dir() {
    // Invoked path looks fine (/usr/local/bin), but the symlink target
    // resolves into a home directory build — must still be rejected.
    assert!(
        validate_binary_location(&path("/usr/local/bin/wgd"), &path("/Users/andi/target/release/wgd"), None)
            .is_err()
    );
}

#[test]
fn rejects_non_standard_home_via_invoking_user_home() {
    assert!(validate_binary_location(
        &path("/opt/home/andi/wgd"),
        &path("/opt/home/andi/wgd"),
        Some(&path("/opt/home/andi")),
    )
    .is_err());
}

#[test]
fn accepts_usr_local_bin() {
    assert!(validate_binary_location(&path("/usr/local/bin/wgd"), &path("/usr/local/bin/wgd"), None).is_ok());
}

#[test]
fn rejects_homebrew_cellar_symlink_target() {
    assert!(validate_binary_location(
        &path("/opt/homebrew/bin/wgd"),
        &path("/opt/homebrew/Cellar/wgd/0.9.0/bin/wgd"),
        None,
    )
    .is_err());
}

// ---- further cases ----------------------------------------------------------

#[test]
fn location_errors_say_what_is_wrong() {
    let relative = validate_binary_location(&path("wgd"), &path("/usr/local/bin/wgd"), None).unwrap_err();
    assert_eq!(relative.fault, LocationFault::NotAbsolute);
    assert_eq!(
        relative.message(),
        "refusing to install a launchd daemon that runs a non-absolute path (wgd); install a build from a system location such as /usr/local/bin with root-owned parent directories"
    );
    let writable = validate_binary_location(&path("/usr/local/bin/wgd"), &path("/tmp/wgd"), None).unwrap_err();
    assert_eq!(writable.fault, LocationFault::UserWritable);
    assert_eq!(
        writable.message(),
        "refusing to install a launchd daemon that runs a binary from a user-writable location (/tmp/wgd); place the wgd binary in a system location such as /usr/local/bin with root-owned parent directories"
    );
    let home = validate_binary_location(&path("/srv//andi/./wgd"), &path("/x"), Some(&path("/srv/andi/"))).unwrap_err();
    assert_eq!(home.fault, LocationFault::InHome);
    assert_eq!(
        home.message(),
        "refusing to install a launchd daemon that runs a binary from the invoking user's home directory (/srv//andi/./wgd); place the wgd binary in a system location such as /usr/local/bin with root-owned parent directories"
    );
    // A home is left by a name that only begins like it, and by no other means.
    assert!(validate_binary_location(&path("/srv/andiamo/wgd"), &path("/x"), Some(&path("/srv/andi"))).is_ok());
    assert!(validate_binary_location(&path("/srv/andi/../wgd"), &path("/x"), Some(&path("/srv/andi"))).is_err());
    // Paths that are shown alike are told apart by their bytes.
    let home = raw(b"/srv/andi\xff");
    assert_eq!(home.text, raw(b"/srv/andi\xfe").text);
    assert!(validate_binary_location(&raw(b"/srv/andi\xfe/wgd"), &path("/x"), Some(&home)).is_ok());
    assert!(validate_binary_location(&raw(b"/srv/andi\xff/wgd"), &path("/x"), Some(&home)).is_err());
    assert!(
        validate_binary_location(&path("/srv/andi\u{fffd}/wgd"), &path("/x"), Some(&home)).is_ok()
    );
    assert!(validate_binary_location(
        &raw(b"/srv/andi/\xff/wgd"),
        &path("/x"),
        Some(&path("/srv/andi"))
    )
    .is_err());
    assert!(!home.is_exact());
    assert!(path("/srv/\u{fffd}").is_exact());
    assert!(validate_binary_location(&path("/tmpwgd"), &path("/Usersx/wgd"), None).is_ok());
}

#[test]
fn rendering_fails_closed_on_odd_templates() {
    // A second marked line that reads differently survives.
    let template = format!("{LABEL}\n{BIN_PLACEHOLDER}\n a {SOCK_GROUP_MARKER}\n b {SOCK_GROUP_MARKER}\n");
    let err = render_plist_from(&template, "/usr/local/bin/wgd", 20).unwrap_err();
    assert_eq!(err, PlistError::GroupMarkerLeft);
    assert_eq!(
        err.message(),
        "rendered plist still contains the @SOCK_PATH_GROUP@ marker"
    );
    // So does a placeholder that the path itself brings.
    let template = format!("{LABEL}\n{BIN_PLACEHOLDER}\n{SOCK_GROUP_MARKER}\n");
    let err = render_plist_from(&template, "/x/@WGD_BIN@", 20).unwrap_err();
    assert_eq!(err, PlistError::BinaryPlaceholderLeft);
    assert_eq!(err.message(), "rendered plist still contains @WGD_BIN@");
    assert_eq!(
        render_plist_from("@WGD_BIN@\n@SOCK_PATH_GROUP@", "/x", 0).unwrap_err(),
        PlistError::NoLabel
    );
}

#[test]
fn the_marked_line_gives_way_with_its_indent() {
    let template = format!("{LABEL}\n \t<!-- {SOCK_GROUP_MARKER} -->\n<s>{BIN_PLACEHOLDER}</s>");
    assert_eq!(
        render_plist_from(&template, "/a<b>\"c'", 7).unwrap(),
        format!(
            "{LABEL}\n \t<key>SockPathGroup</key>\n \t<integer>7</integer>\n<s>/a&lt;b&gt;&quot;c&apos;</s>"
        )
    );
    assert_eq!(xml_escape("a&b"), "a&amp;b");
}

fn places() -> Places {
    Places {
        log_dir: "/var/log/wgd".to_string(),
        socket_dir: "/var/run/wgd".to_string(),
        socket_path: "/var/run/wgd/privileged.sock".to_string(),
    }
}

/// Goes on as a root process would: the right is registered, whoever runs the
/// tests.
fn proceed(state: LaunchdState, reply: LaunchdReply) -> LaunchdTurn {
    match (state, reply) {
        (
            LaunchdState::Install(InstallState::MakingDirectories(
                grouped,
                DirectoryState::ClosingSocket,
            )),
            LaunchdReply::Done(Ok(())),
        ) => LaunchdTurn::Do {
            note: None,
            op: register_right_as(0).expect("root may register the right"),
            state: LaunchdState::Install(InstallState::Registering(grouped)),
        },
        (state, reply) => resume(state, reply),
    }
}

/// A machine on which everything goes well, but for what a test changes.
struct Machine {
    sudo_user: Option<String>,
    exe: Vec<u8>,
    resolved: Vec<u8>,
    home: Option<Vec<u8>>,
    template: Result<String, String>,
    group_exists: bool,
    member: bool,
    gid: Option<u32>,
    failing: Option<&'static str>,
    connections: Vec<ConnectionSummary>,
    stuck: Vec<String>,
    log: Vec<String>,
}

impl Machine {
    fn new() -> Machine {
        Machine {
            sudo_user: Some("andi".to_string()),
            exe: b"/usr/local/bin/wgd".to_vec(),
            resolved: b"/usr/local/bin/wgd".to_vec(),
            home: None,
            template: Ok(PLIST_TEMPLATE.to_string()),
            group_exists: false,
            member: false,
            gid: Some(499),
            failing: None,
            connections: Vec::new(),
            stuck: Vec::new(),
            log: Vec::new(),
        }
    }

    fn done(&self, name: &str) -> LaunchdReply {
        LaunchdReply::Done(if self.failing == Some(name) {
            Err(format!("{name} failed"))
        } else {
            Ok(())
        })
    }

    fn perform(&mut self, op: LaunchdOp) -> LaunchdReply {
        let told = format!("{op:?}");
        let name = told
            .split([' ', '('])
            .next()
            .unwrap_or_default()
            .to_string();
        self.log.push(told);
        match op {
            LaunchdOp::ReadSudoUser => LaunchdReply::Var(self.sudo_user.clone()),
            LaunchdOp::CurrentExe => LaunchdReply::Path(if self.failing == Some("CurrentExe") {
                Err("no exe".to_string())
            } else {
                Ok(raw(&self.exe))
            }),
            LaunchdOp::Canonicalize { path } => {
                assert_eq!(path.bytes, self.exe);
                LaunchdReply::Path(if self.failing == Some("Canonicalize") {
                    Err("no such file".to_string())
                } else {
                    Ok(raw(&self.resolved))
                })
            }
            LaunchdOp::HomeOf { user: _ } => {
                LaunchdReply::Home(self.home.as_ref().map(|home| raw(home)))
            }
            LaunchdOp::ReadFile { path: _ } => LaunchdReply::Text(self.template.clone()),
            LaunchdOp::CheckRootOwned { path } => {
                assert_eq!(path.bytes, self.exe);
                self.done(&name)
            }
            LaunchdOp::ReadGroup => {
                LaunchdReply::Status(if self.failing == Some("ReadGroup") {
                    Err("no tool".to_string())
                } else {
                    Ok(self.group_exists)
                })
            }
            LaunchdOp::CheckMember { user: _ } => {
                LaunchdReply::Status(if self.failing == Some("CheckMember") {
                    Err("no tool".to_string())
                } else {
                    Ok(self.member)
                })
            }
            LaunchdOp::GroupId => LaunchdReply::Gid(self.gid),
            LaunchdOp::RegisterRight => {
                LaunchdReply::Registered(if self.failing == Some("RegisterRight") {
                    Registration::Ended {
                        success: false,
                        status: "exit status: 1".to_string(),
                        stderr: "  NO (-60005)\n".to_string(),
                        written: Ok(()),
                    }
                } else {
                    Registration::Ended {
                        success: true,
                        status: "exit status: 0".to_string(),
                        stderr: String::new(),
                        written: Ok(()),
                    }
                })
            }
            LaunchdOp::Client(ClientOp::List { scope, autostart }) => {
                assert_eq!(scope, ConnectionScope::All);
                assert!(!autostart);
                LaunchdReply::Client(ClientReply::Listed(if self.failing == Some("List") {
                    Err("no daemon".to_string())
                } else {
                    Ok(self.connections.clone())
                }))
            }
            LaunchdOp::Client(ClientOp::Disconnect {
                id,
                reason,
                autostart,
            }) => {
                assert_eq!(reason, DisconnectReason::SessionTeardown);
                assert!(!autostart);
                if self.stuck.contains(&id.text) {
                    return LaunchdReply::Client(ClientReply::Done(Err("stuck".to_string())));
                }
                for conn in self.connections.iter_mut() {
                    if conn.id == id {
                        conn.connected = false;
                    }
                }
                LaunchdReply::Client(ClientReply::Done(Ok(())))
            }
            LaunchdOp::Client(other) => panic!("unexpected request {other:?}"),
            _ => self.done(&name),
        }
    }

    fn run(&mut self, turn: LaunchdTurn) -> (Vec<String>, Result<LaunchdReport, LaunchdError>) {
        let mut notes = Vec::new();
        let mut turn = turn;
        loop {
            match turn {
                LaunchdTurn::Do { note, op, state } => {
                    if let Some(note) = note {
                        notes.push(note.message());
                    }
                    turn = proceed(state, self.perform(op));
                }
                LaunchdTurn::Done(report) => return (notes, Ok(report)),
                LaunchdTurn::Failed(error) => return (notes, Err(error)),
            }
        }
    }

    fn install(&mut self) -> Result<LaunchdReport, LaunchdError> {
        let (_, result) = self.run(install_as(0, None, places()));
        result
    }

    fn did(&self, name: &str) -> bool {
        self.log.iter().any(|told| told.starts_with(name))
    }
}

#[test]
fn install_goes_through_in_order() {
    let mut machine = Machine::new();
    let report = machine.install().expect("installs");
    assert_eq!(
        report.lines(),
        [
            "wgd privileged daemon installed.",
            "  binary: /usr/local/bin/wgd",
            "  plist:  /Library/LaunchDaemons/me.pansen.wgd.privileged.plist",
            "Added andi to the wgd group. If wgd reports permission denied when connecting to the daemon, log out and back in for group membership to take effect.",
        ]
    );
    let kinds: Vec<&str> = machine
        .log
        .iter()
        .map(|told| told.split(' ').next().unwrap())
        .collect();
    assert_eq!(
        kinds,
        [
            "ReadSudoUser",
            "CurrentExe",
            "Canonicalize",
            "ReadSudoUser",
            "HomeOf",
            "CheckRootOwned",
            "ReadGroup",
            "CreateGroup",
            "CheckMember",
            "AddMember",
            "GroupId",
            "CreateDir",
            "SetMode",
            "CreateDir",
            "SetGroup",
            "SetMode",
            "RegisterRight",
            "WriteDraft",
            "SetDraftMode",
            "SetDraftOwner",
            "InstallDraft",
            "Bootout",
            "Enable",
            "Bootstrap",
        ]
    );
    assert_eq!(
        machine.log[12],
        "SetMode { path: \"/var/log/wgd\", mode: 493 }"
    );
    assert_eq!(
        machine.log[14],
        "SetGroup { path: \"/var/run/wgd\", gid: 499 }"
    );
    assert_eq!(
        machine.log[15],
        "SetMode { path: \"/var/run/wgd\", mode: 488 }"
    );
    assert!(machine.log[17].contains("<integer>499</integer>"));
}

#[test]
fn install_keeps_an_existing_group_and_member() {
    let mut machine = Machine::new();
    machine.group_exists = true;
    machine.member = true;
    let turn = install_as(0, Some(path("/etc/wgd.plist")), places());
    let (_, report) = machine.run(turn);
    assert_eq!(
        report.expect("installs").lines(),
        [
            "wgd privileged daemon installed.",
            "  binary: /usr/local/bin/wgd",
            "  plist:  /Library/LaunchDaemons/me.pansen.wgd.privileged.plist",
            "  template: /etc/wgd.plist",
        ]
    );
    assert!(!machine.did("CreateGroup"));
    assert!(!machine.did("AddMember"));
}

#[test]
fn the_template_is_read_from_the_path_that_was_given() {
    let mut machine = Machine::new();
    let mut turn = install_as(0, Some(raw(b"/etc/wg\xff.plist")), places());
    loop {
        turn = match turn {
            LaunchdTurn::Do {
                op: LaunchdOp::ReadFile { path },
                state,
                ..
            } => {
                assert_eq!(path.bytes, b"/etc/wg\xff.plist");
                resume(state, LaunchdReply::Text(Err("gone".to_string())))
            }
            LaunchdTurn::Do { op, state, .. } => resume(state, machine.perform(op)),
            LaunchdTurn::Failed(error) => {
                assert_eq!(
                    error.message(),
                    "failed to read plist template /etc/wg\u{fffd}.plist"
                );
                return;
            }
            LaunchdTurn::Done(report) => panic!("installed without a template: {report:?}"),
        };
    }
}

#[test]
fn nothing_is_changed_before_all_is_validated() {
    let refused: Vec<(fn(&mut Machine), &str)> = vec![
        (
            |m| m.sudo_user = None,
            "could not determine the invoking user (SUDO_USER is unset); run this via `sudo wgd launchd install` from your normal account, or add yourself to the wgd group manually with: sudo dseditgroup -o edit -a <user> -t user wgd",
        ),
        (
            |m| m.failing = Some("CurrentExe"),
            "failed to determine the running wgd binary path",
        ),
        (
            |m| m.failing = Some("Canonicalize"),
            "failed to resolve /usr/local/bin/wgd",
        ),
        (
            |m| m.resolved = b"/tmp/wgd".to_vec(),
            "refusing to install a launchd daemon that runs a binary from a user-writable location (/tmp/wgd); place the wgd binary in a system location such as /usr/local/bin with root-owned parent directories",
        ),
        (
            |m| m.home = Some(b"/usr/local".to_vec()),
            "refusing to install a launchd daemon that runs a binary from the invoking user's home directory (/usr/local/bin/wgd); place the wgd binary in a system location such as /usr/local/bin with root-owned parent directories",
        ),
        (
            |m| m.failing = Some("CheckRootOwned"),
            "CheckRootOwned failed",
        ),
        (
            |m| m.exe = b"/usr/local/bin/wg\xffd".to_vec(),
            "wgd binary path is not valid UTF-8: /usr/local/bin/wg\u{fffd}d",
        ),
        (
            |m| m.template = Err("gone".to_string()),
            "failed to read plist template /etc/wgd.plist",
        ),
        (
            |m| m.template = Ok("@SOCK_PATH_GROUP@".to_string()),
            "plist template is missing the @WGD_BIN@ placeholder",
        ),
        (
            |m| m.template = Ok("@WGD_BIN@".to_string()),
            "plist template is missing the @SOCK_PATH_GROUP@ marker comment",
        ),
        (
            |m| m.template = Ok(PLIST_TEMPLATE.replace(LABEL, "me.pansen.wgd.evil")),
            "rendered plist is missing the expected launchd Label `me.pansen.wgd.privileged` (custom template?)",
        ),
        (
            |m| m.template = Ok(format!("{PLIST_TEMPLATE}<!-- another @SOCK_PATH_GROUP@ -->\n")),
            "rendered plist still contains the @SOCK_PATH_GROUP@ marker",
        ),
        (
            |m| m.exe = b"/usr/local/bin/@WGD_BIN@".to_vec(),
            "rendered plist still contains @WGD_BIN@",
        ),
    ];
    for (change, message) in refused {
        let mut machine = Machine::new();
        change(&mut machine);
        let turn = install_as(0, Some(path("/etc/wgd.plist")), places());
        let (_, result) = machine.run(turn);
        assert_eq!(result.expect_err("refused").message(), message);
        for told in &machine.log {
            let kind = told.split(' ').next().unwrap();
            assert!(
                [
                    "ReadSudoUser",
                    "CurrentExe",
                    "Canonicalize",
                    "HomeOf",
                    "CheckRootOwned",
                    "ReadFile"
                ]
                .contains(&kind),
                "{told} came before the refusal"
            );
        }
    }
}

#[test]
fn install_stops_at_the_first_failure() {
    for (failing, message, cause) in [
        (
            "ReadGroup",
            "failed to run /usr/sbin/dseditgroup",
            Some("no tool"),
        ),
        ("CreateGroup", "CreateGroup failed", None),
        (
            "CheckMember",
            "failed to check wgd group membership",
            Some("no tool"),
        ),
        ("AddMember", "AddMember failed", None),
        (
            "CreateDir",
            "failed to create /var/log/wgd",
            Some("CreateDir failed"),
        ),
        (
            "SetMode",
            "failed to chmod /var/log/wgd",
            Some("SetMode failed"),
        ),
        (
            "SetGroup",
            "failed to chown /var/run/wgd",
            Some("SetGroup failed"),
        ),
        (
            "RegisterRight",
            "failed to register the me.pansen.wgd.modify-connection authorization right (exit status: 1): NO (-60005)",
            None,
        ),
        ("Enable", "Enable failed", None),
        ("Bootstrap", "Bootstrap failed", None),
    ] {
        let mut machine = Machine::new();
        machine.failing = Some(failing);
        let error = machine.install().expect_err("fails");
        assert_eq!(error.message(), message);
        assert_eq!(error.cause().as_deref(), cause);
        assert!(machine.log.last().unwrap().starts_with(failing));
    }
    let mut machine = Machine::new();
    machine.gid = None;
    let error = machine.install().expect_err("fails");
    assert_eq!(error.message(), "group wgd not found after creation");
    // Not loaded yet is fine.
    let mut machine = Machine::new();
    machine.failing = Some("Bootout");
    assert!(machine.install().is_ok());
}

#[test]
fn a_failed_draft_is_removed() {
    for (failing, message) in [
        (
            "WriteDraft",
            "failed to write /Library/LaunchDaemons/me.pansen.wgd.privileged.plist.tmp",
        ),
        (
            "SetDraftMode",
            "failed to chmod /Library/LaunchDaemons/me.pansen.wgd.privileged.plist.tmp",
        ),
        (
            "SetDraftOwner",
            "failed to chown /Library/LaunchDaemons/me.pansen.wgd.privileged.plist.tmp",
        ),
        (
            "InstallDraft",
            "failed to install /Library/LaunchDaemons/me.pansen.wgd.privileged.plist",
        ),
    ] {
        let mut machine = Machine::new();
        machine.failing = Some(failing);
        let error = machine.install().expect_err("fails");
        assert_eq!(error.message(), message);
        assert_eq!(error.cause(), Some(format!("{failing} failed")));
        assert_eq!(machine.log.last().unwrap(), "RemoveDraft");
        assert!(!machine.did("Bootout"));
    }
}

#[test]
fn the_right_is_for_root_to_register() {
    assert!(matches!(
        register_right_as(0),
        Ok(LaunchdOp::RegisterRight)
    ));
    assert_eq!(
        register_right_as(501).unwrap_err().message(),
        "registering the wgd authorization rule requires root; start the privileged service via launchd or sudo"
    );
    let told = |registration: Registration| {
        authorization_right_registered(registration)
            .unwrap_err()
            .message()
    };
    assert_eq!(
        told(Registration::NotStarted("no".to_string())),
        "failed to run security authorizationdb write"
    );
    assert_eq!(
        told(Registration::Lost("no".to_string())),
        "failed to wait for security authorizationdb write"
    );
    assert_eq!(
        told(Registration::Ended {
            success: true,
            status: "exit status: 0".to_string(),
            stderr: String::new(),
            written: Err("broken pipe".to_string()),
        }),
        "failed to write the wgd authorization rule"
    );
}

#[test]
fn the_right_is_asked_for_after_the_directories() {
    let mut machine = Machine::new();
    let mut turn = install_as(0, None, places());
    loop {
        turn = match turn {
            LaunchdTurn::Do { note: _, op, state } => {
                if matches!(op, LaunchdOp::RegisterRight) {
                    assert!(nix::unistd::geteuid().is_root());
                    return;
                }
                resume(state, machine.perform(op))
            }
            LaunchdTurn::Failed(error) => {
                assert!(!nix::unistd::geteuid().is_root());
                assert!(matches!(error, LaunchdError::RightNeedsRoot));
                assert!(machine.log.last().unwrap().starts_with("SetMode"));
                return;
            }
            LaunchdTurn::Done(report) => panic!("the right was not registered: {report:?}"),
        };
    }
}

#[test]
fn restart_validates_then_kicks() {
    // A restart does not need the path as text, and the home is another one.
    let mut machine = Machine::new();
    machine.exe = b"/srv/a\xfe/wgd".to_vec();
    machine.resolved = b"/srv/a\xfe/wgd".to_vec();
    machine.home = Some(b"/srv/a\xff".to_vec());
    let (_, report) = machine.run(restart_as(0));
    assert!(report.is_ok());

    let mut machine = Machine::new();
    let (_, report) = machine.run(restart_as(0));
    assert_eq!(
        report.expect("restarts").lines(),
        ["wgd privileged daemon restarted."]
    );
    assert_eq!(machine.log.last().unwrap(), "Kickstart");

    let mut machine = Machine::new();
    machine.resolved = b"/Users/andi/wgd".to_vec();
    let (_, result) = machine.run(restart_as(0));
    assert!(result.is_err());
    assert!(!machine.did("Kickstart"));

    let mut machine = Machine::new();
    machine.failing = Some("Kickstart");
    let (_, result) = machine.run(restart_as(0));
    let error = result.unwrap_err();
    assert_eq!(
        error.message(),
        "daemon not installed? run: sudo wgd launchd install"
    );
    assert_eq!(error.cause().as_deref(), Some("Kickstart failed"));
}

fn connection(id: &str, connected: bool) -> ConnectionSummary {
    ConnectionSummary {
        id: ConnectionId {
            text: id.to_string(),
        },
        global: true,
        owner_uid: None,
        start_mode: ConnectionStartMode::Automatic,
        name: None,
        interface: "wg-aaaaaaaa".to_string(),
        connected,
        user_disconnected: false,
        addresses: Vec::new(),
        dns_servers: Vec::new(),
        mtu: None,
        peers: Vec::new(),
        fingerprint: None,
        created_at: 0,
        updated_at: 0,
    }
}

#[test]
fn uninstall_sweeps_twice() {
    let mut machine = Machine::new();
    machine.connections = vec![
        connection("a", true),
        connection("b", false),
        connection("c", true),
    ];
    machine.stuck = vec!["c".to_string()];
    let (notes, report) = machine.run(uninstall_as(0, places()));
    assert_eq!(
        notes,
        [
            "Disconnected a",
            "Warning: failed to disconnect c: stuck",
            "Warning: failed to disconnect c: stuck",
        ]
    );
    assert_eq!(
        report.expect("uninstalls").lines(),
        [
            "wgd privileged daemon uninstalled.",
            "Intentionally kept (remove with `make purge/privileged` for a full removal):",
            "  the wgd binary",
            "  the wgd group",
            "  /var/log/wgd",
            "  the runtime directory (/var/run/wgd)",
        ]
    );
    let tail = &machine.log[machine.log.len() - 4..];
    assert_eq!(
        tail,
        [
            "Bootout",
            "Disable",
            "RemovePlist",
            "RemoveSocket { path: \"/var/run/wgd/privileged.sock\" }",
        ]
    );
}

#[test]
fn uninstall_goes_on_without_a_daemon() {
    let mut machine = Machine::new();
    machine.failing = Some("List");
    let (notes, report) = machine.run(uninstall_as(0, places()));
    assert_eq!(
        notes,
        ["Warning: failed to list connections before uninstall: no daemon"; 2]
    );
    assert!(report.is_ok());

    for failing in ["RemovePlist", "RemoveSocket"] {
        let mut machine = Machine::new();
        machine.failing = Some(failing);
        let (_, result) = machine.run(uninstall_as(0, places()));
        assert_eq!(result.unwrap_err().message(), format!("{failing} failed"));
    }
    for failing in ["Bootout", "Disable"] {
        let mut machine = Machine::new();
        machine.failing = Some(failing);
        let (_, result) = machine.run(uninstall_as(0, places()));
        assert!(result.is_ok());
    }
}

#[test]
fn the_daemons_commands_are_for_root() {
    assert!(require_root_as(0, "install").is_ok());
    assert_eq!(
        require_root_as(501, "restart").unwrap_err().message(),
        "this command must run as root; try: sudo wgd launchd restart"
    );
    let is_root = nix::unistd::geteuid().is_root();
    for turn in [
        cmd_install(None, places()),
        cmd_restart(),
        cmd_uninstall(places()),
    ] {
        assert_eq!(
            matches!(turn, LaunchdTurn::Failed(LaunchdError::NeedsRoot { .. })),
            !is_root
        );
    }
}

#[test]
fn commands_are_taken_up() {
    assert!(matches!(
        dispatch(LaunchdCommand::Reload(7u8), places()),
        LaunchdStart::Reload(7)
    ));
    for (euid, refused) in [(0, false), (501, true)] {
        let start = dispatch_as(
            euid,
            501,
            LaunchdCommand::<u8>::Install {
                plist_template: None,
            },
            places(),
        );
        let LaunchdStart::Daemon(turn) = start else {
            panic!("expected a command on the daemon");
        };
        assert_eq!(matches!(turn, LaunchdTurn::Failed(_)), refused);
    }
    let start = dispatch_as(
        501,
        501,
        LaunchdCommand::<u8>::Agent {
            command: AgentCommand::Status,
        },
        places(),
    );
    assert!(matches!(
        start,
        LaunchdStart::Agent(AgentTurn::Do { .. })
    ));
}

#[test]
fn the_invoking_user_must_be_named() {
    assert_eq!(invoking_user(Some("andi".to_string())).unwrap(), "andi");
    assert!(invoking_user(Some(String::new())).is_err());
    assert!(invoking_user(None).is_err());
}

#[test]
fn programs_are_run_with_these_arguments() {
    let told = |op: LaunchdOp| -> String {
        let run = op.invocation().expect("a program");
        format!("{} {}", run.program, run.args.join(" "))
    };
    let user = "andi".to_string();
    assert_eq!(
        told(LaunchdOp::ReadGroup),
        "/usr/sbin/dseditgroup -o read wgd"
    );
    assert_eq!(
        told(LaunchdOp::CreateGroup),
        "/usr/sbin/dseditgroup -o create wgd"
    );
    assert_eq!(
        told(LaunchdOp::CheckMember { user: user.clone() }),
        "/usr/sbin/dseditgroup -o checkmember -m andi wgd"
    );
    assert_eq!(
        told(LaunchdOp::AddMember { user }),
        "/usr/sbin/dseditgroup -o edit -a andi -t user wgd"
    );
    assert_eq!(
        told(LaunchdOp::RegisterRight),
        "/usr/bin/security authorizationdb write me.pansen.wgd.modify-connection"
    );
    assert_eq!(
        told(LaunchdOp::Bootout),
        "/bin/launchctl bootout system/me.pansen.wgd.privileged"
    );
    assert_eq!(
        told(LaunchdOp::Enable),
        "/bin/launchctl enable system/me.pansen.wgd.privileged"
    );
    assert_eq!(
        told(LaunchdOp::Disable),
        "/bin/launchctl disable system/me.pansen.wgd.privileged"
    );
    assert_eq!(
        told(LaunchdOp::Kickstart),
        "/bin/launchctl kickstart -k system/me.pansen.wgd.privileged"
    );
    assert_eq!(
        told(LaunchdOp::Bootstrap),
        "/bin/launchctl bootstrap system /Library/LaunchDaemons/me.pansen.wgd.privileged.plist"
    );
    assert!(LaunchdOp::RemovePlist.invocation().is_none());
}
