//! What the unprivileged side and the privileged daemon say to each other.

use vstd::prelude::*;

use crate::error::AppError;
use crate::text::quote;

verus! {

/// The name under which the store keeps a connection, in its written form. Two
/// ids are the same exactly when they are written the same.
#[derive(Debug, Clone, PartialEq, Eq)]
pub struct ConnectionId {
    pub text: String,
}

impl ConnectionId {
    /// The same id once more.
    pub fn copy(&self) -> (id: ConnectionId)
        ensures
            id == *self,
    {
        ConnectionId { text: self.text.clone() }
    }

    /// The two ids are the same.
    pub open spec fn same(self, other: ConnectionId) -> bool {
        self.text@ == other.text@
    }

    /// Whether the two ids are the same.
    pub fn is(&self, other: &ConnectionId) -> (result: bool)
        ensures
            result == self.same(*other),
    {
        self.text == other.text
    }
}

/// Whether a connection comes up by itself.
#[derive(Debug, Clone, Copy, PartialEq, Eq, Structural)]
pub enum ConnectionStartMode {
    Manual,
    Automatic,
}

/// Which connections a request is about.
#[derive(Debug, Clone, Copy, PartialEq, Eq, Structural)]
pub enum ConnectionScope {
    /// The caller's own.
    Mine,
    /// The system-wide ones.
    Global,
    /// All of them.
    All,
}

/// Who wants a connection up.
#[derive(Debug, Clone, Copy, PartialEq, Eq, Structural)]
pub enum ConnectReason {
    /// The user asked for it: fresh intent, whatever was asked before.
    User,
    /// An automatic bring-up, chosen from a list that may be out of date.
    Reconciliation,
}

/// Who wants a connection down.
#[derive(Debug, Clone, Copy, PartialEq, Eq, Structural)]
pub enum DisconnectReason {
    /// The user asked for it, and wants it to stay down.
    User,
    /// A session or the daemon is going away.
    SessionTeardown,
}

/// One peer of a connection, as it is shown to clients.
#[derive(Debug, Clone)]
pub struct PeerSummary {
    pub public_key: String,
    pub allowed_ips: Vec<String>,
    pub endpoint: Option<String>,
    pub has_preshared_key: bool,
}

/// A connection, as it is shown to clients.
#[derive(Debug, Clone)]
pub struct ConnectionSummary {
    pub id: ConnectionId,
    pub global: bool,
    pub owner_uid: Option<u32>,
    pub start_mode: ConnectionStartMode,
    pub name: Option<String>,
    pub interface: String,
    pub connected: bool,
    pub user_disconnected: bool,
    pub addresses: Vec<String>,
    pub dns_servers: Vec<String>,
    pub mtu: Option<u16>,
    pub peers: Vec<PeerSummary>,
    pub fingerprint: Option<String>,
    pub created_at: u64,
    pub updated_at: u64,
}

/// What a client can ask of the daemon.
#[allow(inconsistent_fields)]
#[derive(Debug)]
pub enum PrivilegedRequest {
    LeaseAcquire { token: String },
    LeaseRelease { token: String },
    ShutdownIfIdle,
    WgShow { interface: String },
    NetworkOverview { interface: String },
    InterfaceActive { interface: String },
    AddConnection {
        conf_text: String,
        global: bool,
        start_mode: ConnectionStartMode,
        name: Option<String>,
        mtu_override: Option<u16>,
        force: bool,
        auth_external_form: Option<Vec<u8>>,
    },
    RemoveConnection { id: ConnectionId, auth_external_form: Option<Vec<u8>> },
    ConnectConnection { id: ConnectionId, debug: bool, reason: ConnectReason },
    DisconnectConnection { id: ConnectionId, reason: DisconnectReason },
    SetConnectionMode {
        id: ConnectionId,
        start_mode: ConnectionStartMode,
        auth_external_form: Option<Vec<u8>>,
    },
    ListConnections { scope: ConnectionScope },
    GetConnection { id: ConnectionId },
}

/// What the daemon answers.
#[derive(Debug)]
pub enum PrivilegedResponse {
    Unit,
    Bool(bool),
    Text(String),
    ConnectionId(ConnectionId),
    ConnectionList(Vec<ConnectionSummary>),
    Connection(ConnectionSummary),
    Error(ErrorReply),
}

/// Why a request was not carried out.
#[derive(Debug)]
pub enum ErrorReply {
    /// The caller may not do this.
    Denied(Denial),
    /// The caller has to present admin credentials first.
    AuthRequired(AdminCause),
    /// The store has no such connection.
    NotFound,
    /// The connection cannot be touched right now.
    Busy(BusyCause),
    /// Another connection already has the name.
    NameInUse { name: String, existing: ConnectionId },
    /// The WireGuard engine failed on a stored connection.
    WireGuard(String),
    /// Something else failed on a stored connection.
    Other(AppError),
    /// A query about an interface failed.
    Query(AppError),
    /// This daemon does not let its clients shut it down.
    ShutdownDisabled,
}

/// Why the caller may not do something.
#[derive(Debug)]
pub enum Denial {
    GlobalAddNeedsRoot,
    ListAllNeedsRoot,
    NotOwner,
    /// The authentication service's own words.
    Refused(String),
    /// The authentication service failed.
    Failed(AppError),
}

/// What admin credentials are needed for.
#[derive(Debug, Clone, Copy, PartialEq, Eq, Structural)]
pub enum AdminCause {
    StoreConfiguration,
    AutomaticStartup,
    RemoveConfiguration,
}

/// Why a connection cannot be touched right now.
#[derive(Debug, Clone, Copy, PartialEq, Eq, Structural)]
pub enum BusyCause {
    Active,
    InProgress,
}

impl Denial {
    /// The denial as a sentence.
    pub open spec fn text(self) -> Seq<char> {
        match self {
            Denial::GlobalAddNeedsRoot => "adding a global connection requires root"@,
            Denial::ListAllNeedsRoot => "listing all connections requires root"@,
            Denial::NotOwner => "not authorized for this connection"@,
            Denial::Refused(message) => message@,
            Denial::Failed(error) => crate::error::error_text(error),
        }
    }

    fn message(&self) -> (result: String)
        ensures
            result@ == self.text(),
    {
        match self {
            Denial::GlobalAddNeedsRoot => "adding a global connection requires root".to_string(),
            Denial::ListAllNeedsRoot => "listing all connections requires root".to_string(),
            Denial::NotOwner => "not authorized for this connection".to_string(),
            Denial::Refused(message) => message.clone(),
            Denial::Failed(error) => error.message(),
        }
    }
}

impl AdminCause {
    /// The cause in words.
    pub open spec fn text(self) -> Seq<char> {
        match self {
            AdminCause::StoreConfiguration =>
                "storing a new or changed connection configuration that may contain hooks executed as root"@,
            AdminCause::AutomaticStartup =>
                "enabling automatic startup of a global connection and its hooks as root at every boot"@,
            AdminCause::RemoveConfiguration =>
                "removing a stored connection configuration from the privileged connection store"@,
        }
    }

    fn words(&self) -> (result: &'static str)
        ensures
            result@ == self.text(),
    {
        match self {
            AdminCause::StoreConfiguration =>
                "storing a new or changed connection configuration that may contain hooks executed as root",
            AdminCause::AutomaticStartup =>
                "enabling automatic startup of a global connection and its hooks as root at every boot",
            AdminCause::RemoveConfiguration =>
                "removing a stored connection configuration from the privileged connection store",
        }
    }
}

impl BusyCause {
    /// The cause as a sentence.
    pub open spec fn text(self) -> Seq<char> {
        match self {
            BusyCause::Active => "connection is active; disconnect it before removing"@,
            BusyCause::InProgress =>
                "another operation on this connection is in progress; retry once it finishes"@,
        }
    }

    fn words(&self) -> (result: &'static str)
        ensures
            result@ == self.text(),
    {
        match self {
            BusyCause::Active => "connection is active; disconnect it before removing",
            BusyCause::InProgress =>
                "another operation on this connection is in progress; retry once it finishes",
        }
    }
}

impl ErrorReply {
    /// The word by which a client tells the kinds of errors apart.
    pub open spec fn code_text(self) -> Seq<char> {
        match self {
            ErrorReply::Denied(_) => "Auth"@,
            ErrorReply::AuthRequired(_) => "AuthRequired"@,
            ErrorReply::NotFound => "NotFound"@,
            ErrorReply::Busy(_) => "Busy"@,
            ErrorReply::NameInUse { name: _, existing: _ } => "NameInUse"@,
            ErrorReply::WireGuard(_) => "WireGuard"@,
            ErrorReply::Other(_) => "Other"@,
            ErrorReply::Query(error) => query_code(error),
            ErrorReply::ShutdownDisabled => "Control"@,
        }
    }

    /// The word by which a client tells the kinds of errors apart.
    pub fn code(&self) -> (result: String)
        ensures
            result@ == self.code_text(),
    {
        match self {
            ErrorReply::Denied(_) => "Auth".to_string(),
            ErrorReply::AuthRequired(_) => "AuthRequired".to_string(),
            ErrorReply::NotFound => "NotFound".to_string(),
            ErrorReply::Busy(_) => "Busy".to_string(),
            ErrorReply::NameInUse { name: _, existing: _ } => "NameInUse".to_string(),
            ErrorReply::WireGuard(_) => "WireGuard".to_string(),
            ErrorReply::Other(_) => "Other".to_string(),
            ErrorReply::Query(error) => categorize_error(error),
            ErrorReply::ShutdownDisabled => "Control".to_string(),
        }
    }

    /// The error in words.
    pub open spec fn message_text(self) -> Seq<char> {
        match self {
            ErrorReply::Denied(denial) => denial.text(),
            ErrorReply::AuthRequired(cause) => "admin authentication required: "@ + cause.text(),
            ErrorReply::NotFound => "connection not found"@,
            ErrorReply::Busy(cause) => cause.text(),
            ErrorReply::NameInUse { name, existing } => "a connection named "@
                + crate::text::debug_quoted(name@) + " already exists ("@ + existing.text@
                + "); remove it first, or resubmit allowing the name to be replaced"@,
            ErrorReply::WireGuard(message) => message@,
            ErrorReply::Other(error) => crate::error::error_text(error),
            ErrorReply::Query(error) => crate::error::error_text(error),
            ErrorReply::ShutdownDisabled => "shutdown control is disabled for this daemon instance"@,
        }
    }

    /// The error in words.
    pub fn message(&self) -> (result: String)
        ensures
            result@ == self.message_text(),
    {
        match self {
            ErrorReply::Denied(denial) => denial.message(),
            ErrorReply::AuthRequired(cause) => {
                let mut result = "admin authentication required: ".to_string();
                result.append(cause.words());
                result
            },
            ErrorReply::NotFound => "connection not found".to_string(),
            ErrorReply::Busy(cause) => cause.words().to_string(),
            ErrorReply::NameInUse { name, existing } => {
                let mut result = "a connection named ".to_string();
                result.append(quote(name.as_str()).as_str());
                result.append(" already exists (");
                result.append(existing.text.as_str());
                result.append("); remove it first, or resubmit allowing the name to be replaced");
                result
            },
            ErrorReply::WireGuard(message) => message.clone(),
            ErrorReply::Other(error) => error.message(),
            ErrorReply::Query(error) => error.message(),
            ErrorReply::ShutdownDisabled =>
                "shutdown control is disabled for this daemon instance".to_string(),
        }
    }
}

/// The code of an error that a query about an interface met.
pub open spec fn query_code(error: AppError) -> Seq<char> {
    if error is WireGuard {
        "WireGuard"@
    } else {
        "Kernel"@
    }
}

/// The code of an error that a query about an interface met.
pub fn categorize_error(error: &AppError) -> (result: String)
    ensures
        result@ == query_code(*error),
{
    match error {
        AppError::WireGuard(_) => "WireGuard".to_string(),
        _ => "Kernel".to_string(),
    }
}

/// A client tells the kinds of errors apart by their codes: two errors that are not
/// about queries have the same code exactly when they are of the same kind. A failed
/// query has the code of the engine where the engine failed, and one of its own
/// otherwise.
pub proof fn codes_tell_the_kinds_apart(a: ErrorReply, b: ErrorReply, error: AppError)
    requires
        !(a is Query),
        !(b is Query),
    ensures
        a.code_text() == b.code_text() <==> ({
            ||| a is Denied && b is Denied
            ||| a is AuthRequired && b is AuthRequired
            ||| a is NotFound && b is NotFound
            ||| a is Busy && b is Busy
            ||| a is NameInUse && b is NameInUse
            ||| a is WireGuard && b is WireGuard
            ||| a is Other && b is Other
            ||| a is ShutdownDisabled && b is ShutdownDisabled
        }),
        ErrorReply::Query(error).code_text() == a.code_text() <==> a is WireGuard && error
            is WireGuard,
{
    reveal_strlit("Auth");
    reveal_strlit("AuthRequired");
    reveal_strlit("NotFound");
    reveal_strlit("Busy");
    reveal_strlit("NameInUse");
    reveal_strlit("WireGuard");
    reveal_strlit("Other");
    reveal_strlit("Control");
    reveal_strlit("Kernel");
    assert("Auth"@.len() == 4 && "Busy"@.len() == 4 && "Auth"@[0] == 'A' && "Busy"@[0] == 'B');
    assert("AuthRequired"@.len() == 12 && "NotFound"@.len() == 8);
    assert("NameInUse"@.len() == 9 && "WireGuard"@.len() == 9);
    assert("NameInUse"@[0] == 'N' && "WireGuard"@[0] == 'W');
    assert("Other"@.len() == 5 && "Control"@.len() == 7 && "Kernel"@.len() == 6);
}

/// What others said is passed on in their own words, and a name that is taken is told
/// with the connection that has it.
pub proof fn messages_pass_words_on(reply: ErrorReply)
    ensures
        match reply {
            ErrorReply::Denied(Denial::Refused(message)) => reply.message_text() == message@,
            ErrorReply::Denied(Denial::Failed(error)) => reply.message_text()
                == crate::error::error_text(error),
            ErrorReply::WireGuard(message) => reply.message_text() == message@,
            ErrorReply::Other(error) => reply.message_text() == crate::error::error_text(error),
            ErrorReply::Query(error) => reply.message_text() == crate::error::error_text(error),
            ErrorReply::NameInUse { name, existing } => crate::text::has_text(
                reply.message_text(),
                existing.text@,
            ) && crate::text::has_text(
                reply.message_text(),
                crate::text::debug_quoted(name@),
            ),
            _ => true,
        },
{
    if let ErrorReply::NameInUse { name, existing } = reply {
        let text = reply.message_text();
        let first = "a connection named "@;
        let quoted = crate::text::debug_quoted(name@);
        let middle = " already exists ("@;
        let at = first.len() as int;
        let behind = at + quoted.len() + middle.len();
        assert(text.subrange(at, at + quoted.len()) =~= quoted);
        assert(crate::text::occurs_at(text, quoted, at));
        assert(text.subrange(behind, behind + existing.text@.len()) =~= existing.text@);
        assert(crate::text::occurs_at(text, existing.text@, behind));
    }
}

} // verus!
