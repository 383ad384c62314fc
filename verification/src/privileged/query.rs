//! Requests that change nothing: listing and showing connections, and asking
//! about interfaces.

use vstd::prelude::*;

use crate::error::AppError;
use crate::paths::join_path;
use crate::privileged::dispatch;
use crate::privileged::dispatch::{
    auth_denied, authorize_access, error_response, not_found, DispatchOutcome, HandlerState,
    PeerOrigin,
};
use crate::privileged::store::{PeerConfig, StoreCall, StoreReply, StoredConnection};
use crate::privileged_api::{
    ConnectionId, ConnectionScope, ConnectionSummary, Denial, ErrorReply, PeerSummary,
    PrivilegedResponse,
};

verus! {

// ---- summaries --------------------------------------------------------------

/// `summary` shows `peer`, without its preshared key.
pub open spec fn shows_peer(summary: PeerSummary, peer: PeerConfig) -> bool {
    &&& summary.public_key == peer.public_key
    &&& summary.allowed_ips@ == peer.allowed_ips@
    &&& summary.endpoint == peer.endpoint_literal
    &&& summary.has_preshared_key == peer.preshared_key is Some
}

/// `summary` shows `record`; the fingerprint is shown only on demand.
pub open spec fn shows(
    summary: ConnectionSummary,
    record: StoredConnection,
    connected: bool,
    include_fingerprint: bool,
) -> bool {
    &&& summary.id == record.id
    &&& summary.global == record.global
    &&& summary.owner_uid == record.owner_uid
    &&& summary.start_mode == record.start_mode
    &&& summary.name == record.name
    &&& summary.interface == record.interface
    &&& summary.connected == connected
    &&& summary.user_disconnected == record.user_disconnected
    &&& summary.addresses@ == record.config.addresses@
    &&& summary.dns_servers@ == record.config.dns_servers@
    &&& summary.mtu == record.config.mtu
    &&& summary.peers@.len() == record.config.peers@.len()
    &&& forall|i: int|
        0 <= i < summary.peers@.len() ==> shows_peer(
            #[trigger] summary.peers@[i],
            record.config.peers@[i],
        )
    &&& summary.fingerprint == (if include_fingerprint {
        Some(record.fingerprint)
    } else {
        None
    })
    &&& summary.created_at == record.created_at
    &&& summary.updated_at == record.updated_at
}

fn copy_text(text: &Option<String>) -> (result: Option<String>)
    ensures
        result == *text,
{
    match text {
        Some(text) => Some(text.clone()),
        None => None,
    }
}

fn copy_texts(list: &Vec<String>) -> (result: Vec<String>)
    ensures
        result@ == list@,
{
    let mut result: Vec<String> = Vec::new();
    let mut i: usize = 0;
    while i < list.len()
        invariant
            i <= list@.len(),
            result@ == list@.take(i as int),
        decreases list@.len() - i,
    {
        result.push(list[i].clone());
        assert(list@.take(i + 1) =~= list@.take(i as int).push(list@[i as int]));
        i += 1;
    }
    assert(list@.take(i as int) =~= list@);
    result
}

/// What clients are shown of a record.
pub fn summarize(conn: &StoredConnection, connected: bool, include_fingerprint: bool) -> (summary:
    ConnectionSummary)
    ensures
        shows(summary, *conn, connected, include_fingerprint),
{
    let mut peers: Vec<PeerSummary> = Vec::new();
    let mut i: usize = 0;
    while i < conn.config.peers.len()
        invariant
            i <= conn.config.peers@.len(),
            peers@.len() == i,
            forall|j: int|
                0 <= j < i ==> shows_peer(#[trigger] peers@[j], conn.config.peers@[j]),
        decreases conn.config.peers@.len() - i,
    {
        let peer = &conn.config.peers[i];
        let has_preshared_key: bool = match &peer.preshared_key {
            Some(_) => true,
            None => false,
        };
        peers.push(
            PeerSummary {
                public_key: peer.public_key.clone(),
                allowed_ips: copy_texts(&peer.allowed_ips),
                endpoint: copy_text(&peer.endpoint_literal),
                has_preshared_key,
            },
        );
        i += 1;
    }
    ConnectionSummary {
        id: conn.id.copy(),
        global: conn.global,
        owner_uid: conn.owner_uid,
        start_mode: conn.start_mode,
        name: copy_text(&conn.name),
        interface: conn.interface.clone(),
        connected,
        user_disconnected: conn.user_disconnected,
        addresses: copy_texts(&conn.config.addresses),
        dns_servers: copy_texts(&conn.config.dns_servers),
        mtu: conn.config.mtu,
        peers,
        fingerprint: if include_fingerprint {
            Some(conn.fingerprint.clone())
        } else {
            None
        },
        created_at: conn.created_at,
        updated_at: conn.updated_at,
    }
}

// ---- listing ----------------------------------------------------------------

/// What a listing is waiting for.
#[derive(Debug)]
pub enum ListState {
    Loading(PeerOrigin, ConnectionScope),
    /// The records to list, and whether each of the first of them is up.
    Checking(Vec<StoredConnection>, Vec<bool>),
}

impl ListState {
    /// `reply` is of the kind that the listing is waiting for.
    pub open spec fn accepts(self, reply: StoreReply) -> bool {
        match self {
            ListState::Loading(_, _) => reply is Records,
            ListState::Checking(records, connected) => reply is Active && connected@.len()
                < records@.len(),
        }
    }
}

/// The record belongs to the scope, for this caller.
pub open spec fn in_scope(
    record: StoredConnection,
    scope: ConnectionScope,
    origin: PeerOrigin,
) -> bool {
    match scope {
        ConnectionScope::Mine => record.owner_uid == Some(origin.uid_of()),
        ConnectionScope::Global => record.global,
        ConnectionScope::All => true,
    }
}

/// The records that belong to the scope, for this caller, in their order.
pub open spec fn scoped(
    records: Seq<StoredConnection>,
    scope: ConnectionScope,
    origin: PeerOrigin,
) -> Seq<StoredConnection>
    decreases records.len(),
{
    if records.len() == 0 {
        Seq::empty()
    } else {
        let before = scoped(records.drop_last(), scope, origin);
        if in_scope(records.last(), scope, origin) {
            before.push(records.last())
        } else {
            before
        }
    }
}

/// A listing of `records` of which the first are known to be up or down: the
/// next one is asked about, and when all are known they are shown.
pub open spec fn listing(
    records: Seq<StoredConnection>,
    connected: Seq<bool>,
    outcome: DispatchOutcome,
) -> bool {
    if connected.len() < records.len() {
        &&& outcome matches DispatchOutcome::Ask {
            state: HandlerState::List(ListState::Checking(now_records, now_connected)),
            call: StoreCall::IsActive { id },
        }
        &&& now_records@ == records
        &&& now_connected@ == connected
        &&& id == records[connected.len() as int].id
    } else {
        &&& outcome matches DispatchOutcome::Immediate(PrivilegedResponse::ConnectionList(list))
        &&& list@.len() == records.len()
        &&& forall|i: int|
            0 <= i < list@.len() ==> shows(#[trigger] list@[i], records[i], connected[i], false)
    }
}

/// What is known of a tunnel; one that cannot be asked about counts as down.
pub open spec fn known_up(answer: Result<bool, AppError>) -> bool {
    answer matches Ok(active) && active
}

/// How a listing goes on from an answer.
pub open spec fn list_stepped(state: ListState, reply: StoreReply, outcome: DispatchOutcome) -> bool {
    match (state, reply) {
        (ListState::Loading(origin, scope), StoreReply::Records(Ok(all))) => listing(
            scoped(all@, scope, origin),
            Seq::empty(),
            outcome,
        ),
        (ListState::Loading(_, _), StoreReply::Records(Err(error))) => outcome
            == dispatch::failed(error),
        (ListState::Checking(records, connected), StoreReply::Active(answer)) => listing(
            records@,
            connected@.push(known_up(answer)),
            outcome,
        ),
        _ => false,
    }
}

/// Starts to list connections.
pub fn handle_list_connections(origin: PeerOrigin, scope: ConnectionScope) -> (outcome:
    DispatchOutcome)
    ensures
        outcome == (if scope == ConnectionScope::All && !origin.root() {
            DispatchOutcome::Immediate(
                PrivilegedResponse::Error(ErrorReply::Denied(Denial::ListAllNeedsRoot)),
            )
        } else {
            DispatchOutcome::Ask {
                state: HandlerState::List(ListState::Loading(origin, scope)),
                call: StoreCall::LoadAll,
            }
        }),
        dispatch::ready(outcome),
{
    if scope == ConnectionScope::All && !origin.is_root() {
        return DispatchOutcome::Immediate(auth_denied(Denial::ListAllNeedsRoot));
    }
    DispatchOutcome::Ask {
        state: HandlerState::List(ListState::Loading(origin, scope)),
        call: StoreCall::LoadAll,
    }
}

fn belongs(record: &StoredConnection, scope: ConnectionScope, origin: PeerOrigin) -> (result: bool)
    ensures
        result == in_scope(*record, scope, origin),
{
    match scope {
        ConnectionScope::Mine => match record.owner_uid {
            Some(owner) => owner == origin.uid(),
            None => false,
        },
        ConnectionScope::Global => record.global,
        ConnectionScope::All => true,
    }
}

fn keep_scoped(all: Vec<StoredConnection>, scope: ConnectionScope, origin: PeerOrigin) -> (result:
    Vec<StoredConnection>)
    ensures
        result@ == scoped(all@, scope, origin),
{
    let mut result: Vec<StoredConnection> = Vec::new();
    let ghost records = all@;
    for record in it: all.into_iter()
        invariant
            it.seq() == records,
            result@ == scoped(records.take(it.index() as int), scope, origin),
    {
        assert(records.take(it.index() + 1).drop_last() =~= records.take(it.index() as int));
        if belongs(&record, scope, origin) {
            result.push(record);
        }
    }
    assert(records.take(records.len() as int) =~= records);
    result
}

fn go_on_listing(records: Vec<StoredConnection>, connected: Vec<bool>) -> (outcome: DispatchOutcome)
    requires
        connected@.len() <= records@.len(),
    ensures
        listing(records@, connected@, outcome),
        dispatch::ready(outcome),
{
    if connected.len() < records.len() {
        let id = records[connected.len()].id.copy();
        return DispatchOutcome::Ask {
            state: HandlerState::List(ListState::Checking(records, connected)),
            call: StoreCall::IsActive { id },
        };
    }
    let mut list: Vec<ConnectionSummary> = Vec::new();
    let mut i: usize = 0;
    while i < records.len()
        invariant
            i <= records@.len(),
            connected@.len() == records@.len(),
            list@.len() == i,
            forall|j: int|
                0 <= j < i ==> shows(#[trigger] list@[j], records@[j], connected@[j], false),
        decreases records@.len() - i,
    {
        list.push(summarize(&records[i], connected[i], false));
        i += 1;
    }
    DispatchOutcome::Immediate(PrivilegedResponse::ConnectionList(list))
}

fn is_up(answer: Result<bool, AppError>) -> (result: bool)
    ensures
        result == known_up(answer),
{
    match answer {
        Ok(active) => active,
        Err(_) => false,
    }
}

/// Goes on with a listing from an answer.
pub fn resume_list(state: ListState, reply: StoreReply) -> (outcome: DispatchOutcome)
    requires
        state.accepts(reply),
    ensures
        list_stepped(state, reply, outcome),
        dispatch::ready(outcome),
{
    match (state, reply) {
        (ListState::Loading(origin, scope), StoreReply::Records(result)) => match result {
            Ok(all) => go_on_listing(keep_scoped(all, scope, origin), Vec::new()),
            Err(error) => DispatchOutcome::Immediate(error_response(error)),
        },
        (ListState::Checking(records, connected), StoreReply::Active(answer)) => {
            let mut connected = connected;
            connected.push(is_up(answer));
            go_on_listing(records, connected)
        },
        (_, _) => vstd::pervasive::unreached(),
    }
}

// ---- showing one ------------------------------------------------------------

/// What the showing of a connection is waiting for.
#[derive(Debug)]
pub enum GetState {
    Loading(PeerOrigin, ConnectionId),
    Checking(StoredConnection),
}

impl GetState {
    /// `reply` is of the kind that the showing is waiting for.
    pub open spec fn accepts(self, reply: StoreReply) -> bool {
        match self {
            GetState::Loading(_, _) => reply is Record,
            GetState::Checking(_) => reply is Active,
        }
    }
}

/// How the showing of a connection goes on from an answer. Whoever may see the
/// record at all is shown its fingerprint too.
pub open spec fn get_stepped(state: GetState, reply: StoreReply, outcome: DispatchOutcome) -> bool {
    match (state, reply) {
        (GetState::Loading(origin, id), StoreReply::Record(Ok(Some(record)))) => outcome == (
        if dispatch::may_access(record, origin) {
            DispatchOutcome::Ask {
                state: HandlerState::Get(GetState::Checking(record)),
                call: StoreCall::IsActive { id },
            }
        } else {
            dispatch::denied()
        }),
        (GetState::Loading(_, _), StoreReply::Record(Ok(None))) => outcome == dispatch::missing(),
        (GetState::Loading(_, _), StoreReply::Record(Err(error))) => outcome == dispatch::failed(
            error,
        ),
        (GetState::Checking(record), StoreReply::Active(answer)) => {
            &&& outcome matches DispatchOutcome::Immediate(PrivilegedResponse::Connection(summary))
            &&& shows(summary, record, known_up(answer), true)
        },
        _ => false,
    }
}

/// Starts to show a connection.
pub fn handle_get_connection(origin: PeerOrigin, id: ConnectionId) -> (outcome: DispatchOutcome)
    ensures
        outcome == (DispatchOutcome::Ask {
            state: HandlerState::Get(GetState::Loading(origin, id)),
            call: StoreCall::Load { id },
        }),
        dispatch::ready(outcome),
{
    let loaded = id.copy();
    DispatchOutcome::Ask {
        state: HandlerState::Get(GetState::Loading(origin, id)),
        call: StoreCall::Load { id: loaded },
    }
}

/// Goes on with the showing of a connection from an answer.
pub fn resume_get(state: GetState, reply: StoreReply) -> (outcome: DispatchOutcome)
    requires
        state.accepts(reply),
    ensures
        get_stepped(state, reply, outcome),
        dispatch::ready(outcome),
{
    match (state, reply) {
        (GetState::Loading(origin, id), StoreReply::Record(result)) => match result {
            Ok(Some(record)) => match authorize_access(&record, origin) {
                Some(refusal) => DispatchOutcome::Immediate(refusal),
                None => DispatchOutcome::Ask {
                    state: HandlerState::Get(GetState::Checking(record)),
                    call: StoreCall::IsActive { id },
                },
            },
            Ok(None) => DispatchOutcome::Immediate(not_found()),
            Err(error) => DispatchOutcome::Immediate(error_response(error)),
        },
        (GetState::Checking(record), StoreReply::Active(answer)) => {
            let connected: bool = is_up(answer);
            DispatchOutcome::Immediate(
                PrivilegedResponse::Connection(summarize(&record, connected, true)),
            )
        },
        (_, _) => vstd::pervasive::unreached(),
    }
}

// ---- interfaces -------------------------------------------------------------

/// What is asked about an interface.
#[derive(Debug, Clone, Copy)]
pub enum InterfaceQuery {
    /// The engine's report on it.
    Report,
    /// The network overview that it offers.
    Overview,
    /// Whether its control socket is there.
    Socket,
}

/// What a question about an interface is waiting for.
#[derive(Debug)]
pub enum InterfaceState {
    Gate(PeerOrigin, InterfaceQuery, String),
    Reporting,
    Overviewing,
    Looking,
}

impl InterfaceState {
    /// `reply` is of the kind that the question is waiting for.
    pub open spec fn accepts(self, reply: StoreReply) -> bool {
        match self {
            InterfaceState::Gate(_, _, _) => reply is Record,
            InterfaceState::Reporting => reply is Text,
            InterfaceState::Overviewing => reply is Overview,
            InterfaceState::Looking => reply is Exists,
        }
    }
}

/// Where the engine keeps its control sockets.
pub const CONTROL_SOCKET_DIR: &'static str = "/var/run/wireguard";

/// The control socket of an interface.
pub open spec fn socket_path(interface: Seq<char>) -> Seq<char> {
    crate::paths::path_joined(CONTROL_SOCKET_DIR@, interface + ".sock"@)
}

/// The control socket of an interface.
pub fn control_socket_path(interface: &str) -> (path: String)
    ensures
        path@ == socket_path(interface@),
{
    let mut leaf = interface.to_string();
    leaf.append(".sock");
    join_path(CONTROL_SOCKET_DIR, leaf.as_str())
}

/// How a question about an interface begins: by looking for the connection that
/// the interface belongs to.
pub open spec fn interface_start(
    origin: PeerOrigin,
    query: InterfaceQuery,
    interface: String,
) -> DispatchOutcome {
    DispatchOutcome::Ask {
        state: HandlerState::Interface(InterfaceState::Gate(origin, query, interface)),
        call: StoreCall::FindByInterface { interface },
    }
}

/// The refusal that a caller gets for an interface, given the connection that
/// was found for it, if any. An interface of no stored connection is free to
/// ask about.
pub open spec fn gate_refusal(
    found: Result<Option<StoredConnection>, AppError>,
    origin: PeerOrigin,
) -> Option<PrivilegedResponse> {
    match found {
        Ok(Some(record)) => if dispatch::may_access(record, origin) {
            None
        } else {
            Some(PrivilegedResponse::Error(ErrorReply::Denied(Denial::NotOwner)))
        },
        Ok(None) => None,
        Err(error) => Some(dispatch::error_answer(error)),
    }
}

/// How a question about an interface goes on from an answer.
pub open spec fn interface_stepped(
    state: InterfaceState,
    reply: StoreReply,
    outcome: DispatchOutcome,
) -> bool {
    match (state, reply) {
        (InterfaceState::Gate(origin, query, interface), StoreReply::Record(found)) => {
            match gate_refusal(found, origin) {
                Some(refusal) => outcome == DispatchOutcome::Immediate(refusal),
                None => match query {
                    InterfaceQuery::Report => outcome == (DispatchOutcome::Ask {
                        state: HandlerState::Interface(InterfaceState::Reporting),
                        call: StoreCall::WgShow { interface },
                    }),
                    InterfaceQuery::Overview => outcome == (DispatchOutcome::Ask {
                        state: HandlerState::Interface(InterfaceState::Overviewing),
                        call: StoreCall::NetworkOverview { interface },
                    }),
                    InterfaceQuery::Socket => {
                        &&& outcome matches DispatchOutcome::Ask {
                            state: HandlerState::Interface(InterfaceState::Looking),
                            call: StoreCall::SocketExists { path },
                        }
                        &&& path@ == socket_path(interface@)
                    },
                },
            }
        },
        (InterfaceState::Reporting, StoreReply::Text(Ok(report))) => outcome
            == DispatchOutcome::Immediate(PrivilegedResponse::Text(report)),
        (InterfaceState::Reporting, StoreReply::Text(Err(error))) => outcome
            == DispatchOutcome::Immediate(PrivilegedResponse::Error(ErrorReply::Query(error))),
        (InterfaceState::Overviewing, StoreReply::Overview(Ok(Some(overview)))) => outcome
            == DispatchOutcome::Immediate(PrivilegedResponse::Text(overview)),
        (InterfaceState::Overviewing, StoreReply::Overview(Ok(None))) => {
            &&& outcome matches DispatchOutcome::Immediate(PrivilegedResponse::Text(overview))
            &&& overview@ == Seq::<char>::empty()
        },
        (InterfaceState::Overviewing, StoreReply::Overview(Err(error))) => outcome
            == DispatchOutcome::Immediate(PrivilegedResponse::Error(ErrorReply::Query(error))),
        (InterfaceState::Looking, StoreReply::Exists(there)) => outcome
            == DispatchOutcome::Immediate(PrivilegedResponse::Bool(there)),
        _ => false,
    }
}

/// Starts to answer a question about an interface.
pub fn handle_interface_query(
    origin: PeerOrigin,
    query: InterfaceQuery,
    interface: String,
) -> (outcome: DispatchOutcome)
    ensures
        outcome == interface_start(origin, query, interface),
        dispatch::ready(outcome),
{
    let wanted = interface.clone();
    DispatchOutcome::Ask {
        state: HandlerState::Interface(InterfaceState::Gate(origin, query, interface)),
        call: StoreCall::FindByInterface { interface: wanted },
    }
}

/// The refusal that a caller gets for an interface, if any. The questions about
/// interfaces name no connection, but where the interface belongs to one, the
/// rule is the same as for the connection itself.
pub fn legacy_interface_access_denied(
    found: Result<Option<StoredConnection>, AppError>,
    origin: PeerOrigin,
) -> (refusal: Option<PrivilegedResponse>)
    ensures
        refusal == gate_refusal(found, origin),
{
    match found {
        Ok(Some(record)) => authorize_access(&record, origin),
        Ok(None) => None,
        Err(error) => Some(error_response(error)),
    }
}

/// Goes on with a question about an interface from an answer.
pub fn resume_interface(state: InterfaceState, reply: StoreReply) -> (outcome: DispatchOutcome)
    requires
        state.accepts(reply),
    ensures
        interface_stepped(state, reply, outcome),
        dispatch::ready(outcome),
{
    match (state, reply) {
        (InterfaceState::Gate(origin, query, interface), StoreReply::Record(found)) => {
            if let Some(refusal) = legacy_interface_access_denied(found, origin) {
                return DispatchOutcome::Immediate(refusal);
            }
            match query {
                InterfaceQuery::Report => DispatchOutcome::Ask {
                    state: HandlerState::Interface(InterfaceState::Reporting),
                    call: StoreCall::WgShow { interface },
                },
                InterfaceQuery::Overview => DispatchOutcome::Ask {
                    state: HandlerState::Interface(InterfaceState::Overviewing),
                    call: StoreCall::NetworkOverview { interface },
                },
                InterfaceQuery::Socket => DispatchOutcome::Ask {
                    state: HandlerState::Interface(InterfaceState::Looking),
                    call: StoreCall::SocketExists {
                        path: control_socket_path(interface.as_str()),
                    },
                },
            }
        },
        (InterfaceState::Reporting, StoreReply::Text(result)) => DispatchOutcome::Immediate(
            match result {
                Ok(report) => PrivilegedResponse::Text(report),
                Err(error) => PrivilegedResponse::Error(ErrorReply::Query(error)),
            },
        ),
        (InterfaceState::Overviewing, StoreReply::Overview(result)) => DispatchOutcome::Immediate(
            match result {
                Ok(Some(overview)) => PrivilegedResponse::Text(overview),
                Ok(None) => PrivilegedResponse::Text(String::new()),
                Err(error) => PrivilegedResponse::Error(ErrorReply::Query(error)),
            },
        ),
        (InterfaceState::Looking, StoreReply::Exists(there)) => DispatchOutcome::Immediate(
            PrivilegedResponse::Bool(there),
        ),
        (_, _) => vstd::pervasive::unreached(),
    }
}

} // verus!
