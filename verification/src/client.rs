//! What the unprivileged side asks of the privileged daemon.

use vstd::prelude::*;

use crate::privileged_api::{
    ConnectReason, ConnectionId, ConnectionScope, ConnectionStartMode, ConnectionSummary,
    DisconnectReason,
};

verus! {

/// One request to the daemon.
#[allow(inconsistent_fields)]
#[derive(Debug)]
pub enum ClientOp {
    /// List connections. Without `autostart`, a daemon that is not running stays
    /// so, and the request fails.
    List { scope: ConnectionScope, autostart: bool },
    Add {
        conf_text: String,
        global: bool,
        start_mode: ConnectionStartMode,
        name: Option<String>,
        mtu: Option<u16>,
        force: bool,
    },
    Remove { id: ConnectionId },
    Connect { id: ConnectionId, debug: bool, reason: ConnectReason },
    Disconnect { id: ConnectionId, reason: DisconnectReason, autostart: bool },
    SetMode { id: ConnectionId, start_mode: ConnectionStartMode },
    Get { id: ConnectionId },
}

/// The answer of the daemon; an error is given in words.
#[derive(Debug)]
pub enum ClientReply {
    Listed(Result<Vec<ConnectionSummary>, String>),
    Added(Result<ConnectionId, String>),
    Done(Result<(), String>),
    Shown(Result<ConnectionSummary, String>),
}

/// `reply` is of the kind that answers `op`.
pub open spec fn answers(op: ClientOp, reply: ClientReply) -> bool {
    match op {
        ClientOp::List { .. } => reply is Listed,
        ClientOp::Add { .. } => reply is Added,
        ClientOp::Remove { .. } => reply is Done,
        ClientOp::Connect { .. } => reply is Done,
        ClientOp::Disconnect { .. } => reply is Done,
        ClientOp::SetMode { .. } => reply is Done,
        ClientOp::Get { .. } => reply is Shown,
    }
}

/// The ids of the connections that are up, in their order.
pub open spec fn connected_ids(list: Seq<ConnectionSummary>) -> Seq<ConnectionId>
    decreases list.len(),
{
    if list.len() == 0 {
        Seq::empty()
    } else {
        let before = connected_ids(list.drop_last());
        if list.last().connected {
            before.push(list.last().id)
        } else {
            before
        }
    }
}

/// The ids of the connections that are up.
pub fn pick_connected(list: &Vec<ConnectionSummary>) -> (ids: Vec<ConnectionId>)
    ensures
        ids@ == connected_ids(list@),
{
    let mut ids: Vec<ConnectionId> = Vec::new();
    let mut i: usize = 0;
    while i < list.len()
        invariant
            i <= list@.len(),
            ids@ == connected_ids(list@.take(i as int)),
        decreases list@.len() - i,
    {
        assert(list@.take(i + 1).drop_last() =~= list@.take(i as int));
        if list[i].connected {
            ids.push(list[i].id.copy());
        }
        i += 1;
    }
    assert(list@.take(i as int) =~= list@);
    ids
}

} // verus!
