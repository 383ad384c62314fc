//! What the connection commands ask of others, and what they say.

use vstd::prelude::*;

use crate::client::{ClientOp, ClientReply};
use crate::connection_cli::add::AddState;
use crate::connection_cli::all::DisconnectAllState;
use crate::connection_cli::one::OneState;
use crate::privileged_api::{
    ConnectionId, ConnectionStartMode, ConnectionSummary, PeerSummary,
};
use crate::text::{decimal_text, framed, join, pad, prefixed, quote};

verus! {

/// One thing to ask of others.
#[derive(Debug)]
pub enum CliOp {
    /// Read a file.
    ReadFile { path: String },
    /// Read a text as a connection id, if it is one.
    ParseId { text: String },
    /// Ask the privileged daemon.
    Client(ClientOp),
}

/// The answer. An error is given in words.
#[derive(Debug)]
pub enum CliReply {
    Text(Result<String, String>),
    Id(Option<ConnectionId>),
    Client(ClientReply),
}

/// `reply` is of the kind that answers `op`.
pub open spec fn fits(op: CliOp, reply: CliReply) -> bool {
    match op {
        CliOp::ReadFile { .. } => reply is Text,
        CliOp::ParseId { .. } => reply is Id,
        CliOp::Client(op) => reply matches CliReply::Client(answer) && crate::client::answers(
            op,
            answer,
        ),
    }
}

// ---- errors and notes -------------------------------------------------------

/// Why a command did not go through.
#[derive(Debug)]
pub enum CliError {
    FileUnreadable { path: String, cause: String },
    /// The privileged daemon's own words.
    Daemon { cause: String },
    NoSuchConnection { name: String },
    Ambiguous { name: String, matches: usize },
    DisconnectsFailed,
}

impl CliError {
    /// The error in words.
    pub open spec fn text(self) -> Seq<char> {
        match self {
            CliError::FileUnreadable { path, cause: _ } => "failed to read "@ + path@,
            CliError::Daemon { cause } => cause@,
            CliError::NoSuchConnection { name } => "no connection named "@
                + crate::text::debug_quoted(name@) + " (and it is not a valid connection id)"@,
            CliError::Ambiguous { name, matches } => "connection name "@
                + crate::text::debug_quoted(name@) + " is ambiguous ("@ + crate::text::decimal(
                matches as nat,
            ) + " matches); use the connection id instead"@,
            CliError::DisconnectsFailed => "one or more connections failed to disconnect"@,
        }
    }

    /// The error in words.
    pub fn message(&self) -> (result: String)
        ensures
            result@ == self.text(),
    {
        match self {
            CliError::FileUnreadable { path, cause: _ } => prefixed(
                "failed to read ",
                path.as_str(),
            ),
            CliError::Daemon { cause } => cause.clone(),
            CliError::NoSuchConnection { name } => framed(
                "no connection named ",
                quote(name.as_str()).as_str(),
                " (and it is not a valid connection id)",
            ),
            CliError::Ambiguous { name, matches } => {
                let mut result = framed(
                    "connection name ",
                    quote(name.as_str()).as_str(),
                    " is ambiguous (",
                );
                result.append(decimal_text(*matches as u64).as_str());
                result.append(" matches); use the connection id instead");
                result
            },
            CliError::DisconnectsFailed =>
                "one or more connections failed to disconnect".to_string(),
        }
    }

    /// What lies behind the error, where the error does not say it itself.
    pub fn cause(&self) -> (result: Option<String>)
        ensures
            result == (match *self {
                CliError::FileUnreadable { path: _, cause } => Some(cause),
                _ => None,
            }),
    {
        match self {
            CliError::FileUnreadable { path: _, cause } => Some(cause.clone()),
            _ => None,
        }
    }
}

/// What a command says on the way.
#[derive(Debug)]
pub enum CliNote {
    Added { id: ConnectionId },
    RemovingStale { id: ConnectionId, name: String, by: ConnectionId },
    Disconnected { id: ConnectionId },
    DisconnectFailed { id: ConnectionId, cause: String },
}

/// The lines of a note, one after the other.
pub open spec fn note_lines(note: CliNote) -> Seq<Seq<char>> {
    match note {
        CliNote::Added { id } => seq![
            "Connection id: "@ + id.text@,
            "  (byte-for-byte-identical resubmissions of this file will return the same id without prompting again)"@,
        ],
        CliNote::RemovingStale { id, name, by } => seq![
            "Removing stale connection "@ + id.text@ + " (same name "@ + crate::text::debug_quoted(
                name@,
            ) + ", superseded by "@ + by.text@ + ")"@,
        ],
        CliNote::Disconnected { id } => seq!["Disconnected "@ + id.text@],
        CliNote::DisconnectFailed { id, cause } => seq![
            "Failed to disconnect "@ + id.text@ + ": "@ + cause@,
        ],
    }
}

impl CliNote {
    /// The lines of the note, one after the other.
    pub fn lines(&self) -> (result: Vec<String>)
        ensures
            crate::text::strings_of(result@) == note_lines(*self),
    {
        let mut result: Vec<String> = Vec::new();
        match self {
            CliNote::Added { id } => {
                result.push(prefixed("Connection id: ", id.text.as_str()));
                result.push(
                    "  (byte-for-byte-identical resubmissions of this file will return the same id without prompting again)".to_string(),
                );
            },
            CliNote::RemovingStale { id, name, by } => {
                let mut line = framed("Removing stale connection ", id.text.as_str(), " (same name ");
                line.append(quote(name.as_str()).as_str());
                line.append(", superseded by ");
                line.append(by.text.as_str());
                line.append(")");
                result.push(line);
            },
            CliNote::Disconnected { id } => {
                result.push(prefixed("Disconnected ", id.text.as_str()));
            },
            CliNote::DisconnectFailed { id, cause } => {
                let mut line = framed("Failed to disconnect ", id.text.as_str(), ": ");
                line.append(cause.as_str());
                result.push(line);
            },
        }
        assert(crate::text::strings_of(result@) =~= note_lines(*self));
        result
    }

    /// Whether the note is a complaint.
    pub fn is_warning(&self) -> (result: bool)
        ensures
            result == self is DisconnectFailed,
    {
        match self {
            CliNote::DisconnectFailed { .. } => true,
            _ => false,
        }
    }
}

// ---- reports ----------------------------------------------------------------

/// What a command says when it went through.
#[derive(Debug)]
pub enum CliReport {
    /// All was said on the way.
    Said,
    Listed(Vec<ConnectionSummary>),
    Removed { id: ConnectionId },
    Connected { id: ConnectionId },
    NotConnected,
    Disconnected { id: ConnectionId },
    ModeSet { id: ConnectionId, start_mode: ConnectionStartMode },
    Shown(ConnectionSummary),
}

/// A text, or a dash where there is none.
pub open spec fn or_dash(text: Option<String>) -> Seq<char> {
    match text {
        Some(text) => text@,
        None => "-"@,
    }
}

/// The owner's number, or a dash where there is none.
pub open spec fn owner_text(owner: Option<u32>) -> Seq<char> {
    match owner {
        Some(uid) => crate::text::decimal(uid as nat),
        None => "-"@,
    }
}

/// The MTU, or a dash where there is none.
pub open spec fn mtu_text(mtu: Option<u16>) -> Seq<char> {
    match mtu {
        Some(mtu) => crate::text::decimal(mtu as nat),
        None => "-"@,
    }
}

/// A truth value in words.
pub open spec fn flag_text(flag: bool) -> Seq<char> {
    if flag {
        "true"@
    } else {
        "false"@
    }
}

/// A start mode in words.
pub open spec fn mode_text(mode: ConnectionStartMode) -> Seq<char> {
    match mode {
        ConnectionStartMode::Manual => "Manual"@,
        ConnectionStartMode::Automatic => "Automatic"@,
    }
}

/// How a connection stands in a list.
pub open spec fn list_line(conn: ConnectionSummary) -> Seq<char> {
    conn.id.text@ + "  "@ + crate::text::padded(or_dash(conn.name), 20) + "  global="@
        + crate::text::padded(flag_text(conn.global), 5) + "  owner="@ + crate::text::padded(
        owner_text(conn.owner_uid),
        6,
    ) + "  mode="@ + crate::text::padded(mode_text(conn.start_mode), 9) + "  connected="@
        + crate::text::padded(flag_text(conn.connected), 5) + "  interface="@ + conn.interface@
}

/// How a peer is shown.
pub open spec fn peer_line(peer: PeerSummary) -> Seq<char> {
    "  "@ + peer.public_key@ + "  allowed_ips=["@ + crate::text::joined(
        crate::text::strings_of(peer.allowed_ips@),
        ", "@,
    ) + "]  endpoint="@ + or_dash(peer.endpoint) + "  has_preshared_key="@ + flag_text(
        peer.has_preshared_key,
    )
}

/// How a connection is shown, up to its peers.
pub open spec fn shown_head(conn: ConnectionSummary) -> Seq<Seq<char>> {
    seq![
        "id:          "@ + conn.id.text@,
        "name:        "@ + or_dash(conn.name),
        "global:      "@ + flag_text(conn.global),
        "owner_uid:   "@ + owner_text(conn.owner_uid),
        "start_mode:  "@ + mode_text(conn.start_mode),
        "interface:   "@ + conn.interface@,
        "connected:   "@ + flag_text(conn.connected),
        "addresses:   "@ + crate::text::joined(
            crate::text::strings_of(conn.addresses@),
            ", "@,
        ),
        "dns_servers: "@ + crate::text::joined(
            crate::text::strings_of(conn.dns_servers@),
            ", "@,
        ),
        "mtu:         "@ + mtu_text(conn.mtu),
    ] + (match conn.fingerprint {
        Some(fingerprint) => seq!["fingerprint: "@ + fingerprint@],
        None => Seq::<Seq<char>>::empty(),
    }) + seq!["peers:"@]
}

/// How a connection is shown.
pub open spec fn shown_lines(conn: ConnectionSummary) -> Seq<Seq<char>> {
    shown_head(conn) + Seq::new(conn.peers@.len(), |i: int| peer_line(conn.peers@[i])) + seq![
        "created_at:  "@ + crate::text::decimal(conn.created_at as nat),
        "updated_at:  "@ + crate::text::decimal(conn.updated_at as nat),
    ]
}

/// The lines of a report, one after the other.
pub open spec fn report_lines(report: CliReport) -> Seq<Seq<char>> {
    match report {
        CliReport::Said => Seq::empty(),
        CliReport::Listed(list) => if list@.len() == 0 {
            seq!["No stored connections."@]
        } else {
            Seq::new(list@.len(), |i: int| list_line(list@[i]))
        },
        CliReport::Removed { id } => seq!["Removed connection "@ + id.text@],
        CliReport::Connected { id } => seq!["Connected "@ + id.text@],
        CliReport::NotConnected => seq!["Not connected."@],
        CliReport::Disconnected { id } => seq!["Disconnected "@ + id.text@],
        CliReport::ModeSet { id, start_mode } => seq![
            "Set "@ + id.text@ + " start mode to "@ + mode_text(start_mode),
        ],
        CliReport::Shown(conn) => shown_lines(conn),
    }
}

fn dash_text(text: &Option<String>) -> (result: String)
    ensures
        result@ == or_dash(*text),
{
    match text {
        Some(text) => text.clone(),
        None => "-".to_string(),
    }
}

fn owner_words(owner: Option<u32>) -> (result: String)
    ensures
        result@ == owner_text(owner),
{
    match owner {
        Some(uid) => decimal_text(uid as u64),
        None => "-".to_string(),
    }
}

fn mtu_words(mtu: Option<u16>) -> (result: String)
    ensures
        result@ == mtu_text(mtu),
{
    match mtu {
        Some(mtu) => decimal_text(mtu as u64),
        None => "-".to_string(),
    }
}

fn flag_words(flag: bool) -> (result: &'static str)
    ensures
        result@ == flag_text(flag),
{
    if flag {
        "true"
    } else {
        "false"
    }
}

fn mode_words(mode: ConnectionStartMode) -> (result: &'static str)
    ensures
        result@ == mode_text(mode),
{
    match mode {
        ConnectionStartMode::Manual => "Manual",
        ConnectionStartMode::Automatic => "Automatic",
    }
}

fn in_list(conn: &ConnectionSummary) -> (result: String)
    ensures
        result@ == list_line(*conn),
{
    let mut result = conn.id.text.clone();
    result.append("  ");
    result.append(pad(dash_text(&conn.name).as_str(), 20).as_str());
    result.append("  global=");
    result.append(pad(flag_words(conn.global), 5).as_str());
    result.append("  owner=");
    result.append(pad(owner_words(conn.owner_uid).as_str(), 6).as_str());
    result.append("  mode=");
    result.append(pad(mode_words(conn.start_mode), 9).as_str());
    result.append("  connected=");
    result.append(pad(flag_words(conn.connected), 5).as_str());
    result.append("  interface=");
    result.append(conn.interface.as_str());
    result
}

fn show_peer(peer: &PeerSummary) -> (result: String)
    ensures
        result@ == peer_line(*peer),
{
    let mut result = framed("  ", peer.public_key.as_str(), "  allowed_ips=[");
    result.append(join(&peer.allowed_ips, ", ").as_str());
    result.append("]  endpoint=");
    result.append(dash_text(&peer.endpoint).as_str());
    result.append("  has_preshared_key=");
    result.append(flag_words(peer.has_preshared_key));
    result
}

fn show_head(conn: &ConnectionSummary) -> (result: Vec<String>)
    ensures
        crate::text::strings_of(result@) == shown_head(*conn),
{
    let mut result: Vec<String> = Vec::new();
    result.push(prefixed("id:          ", conn.id.text.as_str()));
    result.push(prefixed("name:        ", dash_text(&conn.name).as_str()));
    result.push(prefixed("global:      ", flag_words(conn.global)));
    result.push(prefixed("owner_uid:   ", owner_words(conn.owner_uid).as_str()));
    result.push(prefixed("start_mode:  ", mode_words(conn.start_mode)));
    result.push(prefixed("interface:   ", conn.interface.as_str()));
    result.push(prefixed("connected:   ", flag_words(conn.connected)));
    result.push(prefixed("addresses:   ", join(&conn.addresses, ", ").as_str()));
    result.push(prefixed("dns_servers: ", join(&conn.dns_servers, ", ").as_str()));
    result.push(prefixed("mtu:         ", mtu_words(conn.mtu).as_str()));
    if let Some(fingerprint) = &conn.fingerprint {
        result.push(prefixed("fingerprint: ", fingerprint.as_str()));
    }
    result.push("peers:".to_string());
    assert(crate::text::strings_of(result@) =~= shown_head(*conn));
    result
}

fn show(conn: &ConnectionSummary) -> (result: Vec<String>)
    ensures
        crate::text::strings_of(result@) == shown_lines(*conn),
{
    let mut result = show_head(conn);
    let ghost head = shown_head(*conn);
    let ghost peers = Seq::new(conn.peers@.len(), |i: int| peer_line(conn.peers@[i]));
    let mut i: usize = 0;
    assert(head + peers.take(0) =~= head);
    while i < conn.peers.len()
        invariant
            i <= conn.peers@.len(),
            peers == Seq::new(conn.peers@.len(), |j: int| peer_line(conn.peers@[j])),
            crate::text::strings_of(result@) == head + peers.take(i as int),
        decreases conn.peers@.len() - i,
    {
        let ghost before = crate::text::strings_of(result@);
        let line = show_peer(&conn.peers[i]);
        result.push(line);
        assert(crate::text::strings_of(result@) =~= before.push(line@));
        assert(before.push(line@) =~= head + peers.take(i + 1));
        i += 1;
    }
    assert(peers.take(i as int) =~= peers);
    let ghost before = crate::text::strings_of(result@);
    result.push(prefixed("created_at:  ", decimal_text(conn.created_at).as_str()));
    result.push(prefixed("updated_at:  ", decimal_text(conn.updated_at).as_str()));
    assert(crate::text::strings_of(result@) =~= before + seq![
        "created_at:  "@ + crate::text::decimal(conn.created_at as nat),
        "updated_at:  "@ + crate::text::decimal(conn.updated_at as nat),
    ]);
    result
}

/// The lines of a list of connections.
pub fn print_connections(connections: &Vec<ConnectionSummary>) -> (result: Vec<String>)
    ensures
        crate::text::strings_of(result@) == report_lines(CliReport::Listed(*connections)),
{
    let mut result: Vec<String> = Vec::new();
    if connections.len() == 0 {
        result.push("No stored connections.".to_string());
        assert(crate::text::strings_of(result@) =~= seq!["No stored connections."@]);
        return result;
    }
    let mut i: usize = 0;
    while i < connections.len()
        invariant
            i <= connections@.len(),
            result@.len() == i,
            forall|j: int| 0 <= j < i ==> (#[trigger] result@[j])@ == list_line(connections@[j]),
        decreases connections@.len() - i,
    {
        result.push(in_list(&connections[i]));
        i += 1;
    }
    assert(crate::text::strings_of(result@) =~= Seq::new(
        connections@.len(),
        |j: int| list_line(connections@[j]),
    ));
    result
}

impl CliReport {
    /// The lines of the report, one after the other.
    pub fn lines(&self) -> (result: Vec<String>)
        ensures
            crate::text::strings_of(result@) == report_lines(*self),
    {
        let mut result: Vec<String> = Vec::new();
        match self {
            CliReport::Said => {},
            CliReport::Listed(list) => return print_connections(list),
            CliReport::Removed { id } => {
                result.push(prefixed("Removed connection ", id.text.as_str()));
            },
            CliReport::Connected { id } => {
                result.push(prefixed("Connected ", id.text.as_str()));
            },
            CliReport::NotConnected => {
                result.push("Not connected.".to_string());
            },
            CliReport::Disconnected { id } => {
                result.push(prefixed("Disconnected ", id.text.as_str()));
            },
            CliReport::ModeSet { id, start_mode } => {
                let mut line = framed("Set ", id.text.as_str(), " start mode to ");
                line.append(mode_words(*start_mode));
                result.push(line);
            },
            CliReport::Shown(conn) => return show(conn),
        }
        assert(crate::text::strings_of(result@) =~= report_lines(*self));
        result
    }
}

// ---- turns ------------------------------------------------------------------

/// What a command is waiting for.
#[derive(Debug)]
pub enum CliState {
    Add(AddState),
    Listing,
    One(OneState),
    DisconnectAll(DisconnectAllState),
}

impl CliState {
    /// `reply` is of the kind that the command is waiting for.
    pub open spec fn accepts(self, reply: CliReply) -> bool {
        match self {
            CliState::Add(state) => state.accepts(reply),
            CliState::Listing => reply matches CliReply::Client(ClientReply::Listed(_)),
            CliState::One(state) => state.accepts(reply),
            CliState::DisconnectAll(state) => state.accepts(reply),
        }
    }
}

/// What comes next for a command.
#[derive(Debug)]
pub enum CliTurn {
    /// `note` is to be said, `op` to be carried out, and its answer handed to
    /// `resume`.
    Do { note: Option<CliNote>, op: CliOp, state: CliState },
    Done { note: Option<CliNote>, report: CliReport },
    Failed { note: Option<CliNote>, error: CliError },
}

/// Whatever answers the operation of a turn is accepted by its state.
pub open spec fn ready(turn: CliTurn) -> bool {
    turn matches CliTurn::Do { note: _, op, state } ==> forall|reply: CliReply|
        fits(op, reply) ==> state.accepts(reply)
}

} // verus!
