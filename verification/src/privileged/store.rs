//! Stored connections, and what a request asks of the connection store and of
//! the machine around it.

use vstd::prelude::*;

use crate::error::AppError;
use crate::privileged_api::{ConnectionId, ConnectionStartMode};

verus! {

/// One peer of a parsed configuration. The public key is held in base64.
#[derive(Debug, Clone)]
pub struct PeerConfig {
    pub public_key: String,
    pub allowed_ips: Vec<String>,
    pub endpoint_literal: Option<String>,
    pub preshared_key: Option<String>,
}

/// What a request reads of a parsed configuration.
#[derive(Debug, Clone)]
pub struct ConnectionConfig {
    pub addresses: Vec<String>,
    pub dns_servers: Vec<String>,
    pub mtu: Option<u16>,
    pub peers: Vec<PeerConfig>,
}

/// A parsed configuration and the fingerprint of its content.
#[derive(Debug, Clone)]
pub struct ParsedConfig {
    pub config: ConnectionConfig,
    pub fingerprint: String,
}

/// A connection in the store.
#[derive(Debug, Clone)]
pub struct StoredConnection {
    pub id: ConnectionId,
    pub fingerprint: String,
    pub global: bool,
    /// The user the connection belongs to; a global one belongs to nobody.
    pub owner_uid: Option<u32>,
    pub start_mode: ConnectionStartMode,
    pub name: Option<String>,
    pub config: ConnectionConfig,
    pub raw_conf: String,
    pub interface: String,
    pub created_at: u64,
    pub updated_at: u64,
    /// The user took the connection down and has not asked for it since.
    pub user_disconnected: bool,
}

/// One operation outside the decisions: on the store, on a tunnel, or on the
/// machine.
#[derive(Debug)]
pub enum StoreCall {
    /// Parse a configuration and fingerprint it.
    ParseConfig { conf_text: String },
    /// Take the lock on the store's index, or fail at once.
    LockIndex,
    /// Take the lock on one connection, or fail at once.
    LockConnection { id: ConnectionId },
    /// Take the lock on one connection, waiting for it.
    LockConnectionPatient { id: ConnectionId },
    /// Find the record with this content in this scope.
    FindByIdentity { fingerprint: String, global: bool, owner_uid: Option<u32> },
    /// Find the record with this name in this scope.
    FindByName { name: String, global: bool, owner_uid: Option<u32> },
    /// Find the record whose tunnel has this interface.
    FindByInterface { interface: String },
    /// Read one record.
    Load { id: ConnectionId },
    /// Read all records.
    LoadAll,
    /// Whether the connection's tunnel is up.
    IsActive { id: ConnectionId },
    /// Verify the admin credentials that the caller presented.
    VerifyAdmin { external_form: Vec<u8> },
    /// Pick a fresh id and its interface name.
    AllocateInterface,
    /// Read the clock, in seconds.
    Now,
    /// Write a new record.
    Create { record: StoredConnection },
    /// Write an existing record anew.
    Update { record: StoredConnection },
    /// Remove a record.
    Remove { id: ConnectionId },
    /// Bring a tunnel up.
    Connect { id: ConnectionId, debug: bool },
    /// Take a tunnel down.
    Disconnect { id: ConnectionId },
    /// Read the engine's report on an interface.
    WgShow { interface: String },
    /// Read the network overview of an interface, if it offers one.
    NetworkOverview { interface: String },
    /// Whether there is a file at this path.
    SocketExists { path: String },
}

/// The answer to a call.
#[derive(Debug)]
pub enum StoreReply {
    Done(Result<(), AppError>),
    Parsed(Result<ParsedConfig, AppError>),
    Record(Result<Option<StoredConnection>, AppError>),
    Records(Result<Vec<StoredConnection>, AppError>),
    Active(Result<bool, AppError>),
    Allocated(Result<(ConnectionId, String), AppError>),
    Time(u64),
    Text(Result<String, AppError>),
    Overview(Result<Option<String>, AppError>),
    Exists(bool),
}

/// `reply` is of the kind that answers `call`.
pub open spec fn fits(call: StoreCall, reply: StoreReply) -> bool {
    match call {
        StoreCall::ParseConfig { conf_text: _ } => reply is Parsed,
        StoreCall::LockIndex => reply is Done,
        StoreCall::LockConnection { id: _ } => reply is Done,
        StoreCall::LockConnectionPatient { id: _ } => reply is Done,
        StoreCall::FindByIdentity { fingerprint: _, global: _, owner_uid: _ } => reply is Record,
        StoreCall::FindByName { name: _, global: _, owner_uid: _ } => reply is Record,
        StoreCall::FindByInterface { interface: _ } => reply is Record,
        StoreCall::Load { id: _ } => reply is Record,
        StoreCall::LoadAll => reply is Records,
        StoreCall::IsActive { id: _ } => reply is Active,
        StoreCall::VerifyAdmin { external_form: _ } => reply is Done,
        StoreCall::AllocateInterface => reply is Allocated,
        StoreCall::Now => reply is Time,
        StoreCall::Create { record: _ } => reply is Done,
        StoreCall::Update { record: _ } => reply is Done,
        StoreCall::Remove { id: _ } => reply is Done,
        StoreCall::Connect { id: _, debug: _ } => reply is Done,
        StoreCall::Disconnect { id: _ } => reply is Done,
        StoreCall::WgShow { interface: _ } => reply is Text,
        StoreCall::NetworkOverview { interface: _ } => reply is Overview,
        StoreCall::SocketExists { path: _ } => reply is Exists,
    }
}

} // verus!
