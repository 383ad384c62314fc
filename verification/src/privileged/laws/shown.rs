//! What the requests show that change nothing: exactly what the store and the
//! machine say.

use vstd::prelude::*;

use crate::privileged::dispatch::{DispatchOutcome, HandlerState, PeerOrigin};
use crate::privileged::laws;
use crate::privileged::query;
use crate::privileged::query::{GetState, ListState};
use crate::privileged::store::{PeerConfig, StoreCall, StoreReply, StoredConnection};
use crate::privileged_api::{
    ConnectionId, ConnectionScope, ConnectionSummary, PeerSummary, PrivilegedRequest,
    PrivilegedResponse,
};

verus! {

// ---- summaries --------------------------------------------------------------

/// What a summary tells of a peer is so; of the preshared key it tells only
/// whether there is one.
pub open spec fn true_of_peer(summary: PeerSummary, peer: PeerConfig) -> bool {
    &&& summary.public_key@ == peer.public_key@
    &&& summary.allowed_ips@ == peer.allowed_ips@
    &&& summary.endpoint == peer.endpoint_literal
    &&& summary.has_preshared_key <==> peer.preshared_key is Some
}

/// What a summary tells of a record is so, but for its fingerprint and for
/// whether its tunnel is up.
pub open spec fn true_of_record(summary: ConnectionSummary, record: StoredConnection) -> bool {
    &&& summary.id == record.id
    &&& summary.global == record.global
    &&& summary.owner_uid == record.owner_uid
    &&& summary.start_mode == record.start_mode
    &&& summary.name == record.name
    &&& summary.interface@ == record.interface@
    &&& summary.user_disconnected == record.user_disconnected
    &&& summary.addresses@ == record.config.addresses@
    &&& summary.dns_servers@ == record.config.dns_servers@
    &&& summary.mtu == record.config.mtu
    &&& summary.created_at == record.created_at
    &&& summary.updated_at == record.updated_at
    &&& summary.peers@.len() == record.config.peers@.len()
    &&& forall|i: int|
        0 <= i < summary.peers@.len() ==> true_of_peer(
            #[trigger] summary.peers@[i],
            record.config.peers@[i],
        )
}

proof fn lemma_shows(
    summary: ConnectionSummary,
    record: StoredConnection,
    connected: bool,
    include_fingerprint: bool,
)
    requires
        query::shows(summary, record, connected, include_fingerprint),
    ensures
        true_of_record(summary, record),
        summary.connected == connected,
        summary.fingerprint == (if include_fingerprint {
            Some(record.fingerprint)
        } else {
            None
        }),
{
    assert forall|i: int| 0 <= i < summary.peers@.len() implies true_of_peer(
        #[trigger] summary.peers@[i],
        record.config.peers@[i],
    ) by {
        assert(query::shows_peer(summary.peers@[i], record.config.peers@[i]));
    }
}

// ---- listings ---------------------------------------------------------------

/// The `i`th of the replies to a listing's questions says that a tunnel is up.
pub open spec fn said_up(replies: Seq<StoreReply>, i: int) -> bool {
    replies[i + 1] matches StoreReply::Active(Ok(active)) && active
}

/// `list` shows `records`, each of them and in their order. Each is shown as up
/// exactly when its tunnel was asked about and said to be up. No fingerprint is
/// shown.
pub open spec fn lists(
    list: Seq<ConnectionSummary>,
    records: Seq<StoredConnection>,
    replies: Seq<StoreReply>,
    outcomes: Seq<DispatchOutcome>,
) -> bool {
    &&& list.len() == records.len()
    &&& forall|i: int|
        0 <= i < list.len() ==> {
            &&& true_of_record(#[trigger] list[i], records[i])
            &&& list[i].fingerprint is None
            &&& laws::called(outcomes[i + 1]) == Some(StoreCall::IsActive { id: records[i].id })
            &&& list[i].connected <==> said_up(replies, i)
        }
}

spec fn listing_so_far(
    records: Seq<StoredConnection>,
    connected: Seq<bool>,
    replies: Seq<StoreReply>,
    outcomes: Seq<DispatchOutcome>,
) -> bool {
    &&& connected.len() <= records.len()
    &&& forall|i: int|
        0 <= i < connected.len() ==> #[trigger] connected[i] == said_up(replies, i)
            && laws::called(outcomes[i + 1]) == Some(StoreCall::IsActive { id: records[i].id })
}

/// The state of a listing at step `k`, once the records were read as `all`.
spec fn listing_on_course(
    records: Seq<StoredConnection>,
    replies: Seq<StoreReply>,
    outcomes: Seq<DispatchOutcome>,
    k: int,
) -> bool {
    match outcomes[k] {
        DispatchOutcome::Immediate(response) => response matches PrivilegedResponse::ConnectionList(
            list,
        ) && lists(list@, records, replies, outcomes),
        DispatchOutcome::Ask {
            state: HandlerState::List(ListState::Checking(now, connected)),
            call,
        } => {
            &&& now@ == records
            &&& connected@.len() == k - 1
            &&& connected@.len() < records.len()
            &&& call == StoreCall::IsActive { id: records[k - 1].id }
            &&& listing_so_far(records, connected@, replies, outcomes)
        },
        _ => false,
    }
}

proof fn lemma_listing_shown(
    records: Seq<StoredConnection>,
    connected: Seq<bool>,
    replies: Seq<StoreReply>,
    outcomes: Seq<DispatchOutcome>,
    k: int,
)
    requires
        0 < k < outcomes.len(),
        query::listing(records, connected, outcomes[k]),
        connected.len() == k - 1,
        listing_so_far(records, connected, replies, outcomes),
    ensures
        listing_on_course(records, replies, outcomes, k),
{
    if connected.len() == records.len() {
        let list = outcomes[k]->0->ConnectionList_0@;
        assert forall|i: int| 0 <= i < list.len() implies {
            &&& true_of_record(#[trigger] list[i], records[i])
            &&& list[i].fingerprint is None
            &&& laws::called(outcomes[i + 1]) == Some(StoreCall::IsActive { id: records[i].id })
            &&& list[i].connected <==> said_up(replies, i)
        } by {
            lemma_shows(list[i], records[i], connected[i], false);
        }
        assert(lists(list, records, replies, outcomes));
    }
}

proof fn lemma_listing(
    scope: ConnectionScope,
    origin: PeerOrigin,
    sudo_uid: Option<Seq<char>>,
    replies: Seq<StoreReply>,
    outcomes: Seq<DispatchOutcome>,
    all: Vec<StoredConnection>,
    k: int,
)
    requires
        laws::course(
            PrivilegedRequest::ListConnections { scope },
            origin,
            sudo_uid,
            replies,
            outcomes,
        ),
        0 < k < outcomes.len(),
        replies[0] == StoreReply::Records(Ok(all)),
    ensures
        listing_on_course(query::scoped(all@, scope, origin), replies, outcomes, k),
    decreases k,
{
    let p = k - 1;
    let records = query::scoped(all@, scope, origin);
    assert(laws::went_on(outcomes[p], replies[p], outcomes[p + 1]));
    if k == 1 {
        lemma_listing_shown(records, Seq::empty(), replies, outcomes, k);
    } else {
        lemma_listing(scope, origin, sudo_uid, replies, outcomes, all, p);
        if let DispatchOutcome::Ask {
            state: HandlerState::List(ListState::Checking(now, connected)),
            ..
        } = outcomes[p] {
            let more = connected@.push(query::known_up(replies[p]->Active_0));
            assert forall|i: int| 0 <= i < more.len() implies #[trigger] more[i] == said_up(
                replies,
                i,
            ) && laws::called(outcomes[i + 1]) == Some(
                StoreCall::IsActive { id: records[i].id },
            ) by {
                if i < connected@.len() {
                    assert(connected@[i] == said_up(replies, i));
                }
            }
            lemma_listing_shown(records, more, replies, outcomes, k);
        }
    }
}

proof fn lemma_scope_is_filter(
    all: Seq<StoredConnection>,
    scope: ConnectionScope,
    origin: PeerOrigin,
    uid: u32,
)
    requires
        origin == PeerOrigin::Socket(uid) || (origin == PeerOrigin::Stdio && uid == 0),
    ensures
        scope == ConnectionScope::All ==> query::scoped(all, scope, origin) == all,
        scope == ConnectionScope::Mine ==> query::scoped(all, scope, origin) == all.filter(
            |record: StoredConnection| record.owner_uid == Some(uid),
        ),
        scope == ConnectionScope::Global ==> query::scoped(all, scope, origin) == all.filter(
            |record: StoredConnection| record.global,
        ),
    decreases all.len(),
{
    reveal(Seq::filter);
    if all.len() > 0 {
        lemma_scope_is_filter(all.drop_last(), scope, origin, uid);
        assert(all.drop_last().push(all.last()) =~= all);
    }
}

/// A listing is complete. Where the store's records were read as `all`, a list
/// that is answered shows, in their order, every one of them to a listing of
/// all, every one that belongs to the caller to a listing of the caller's own,
/// and every global one to a listing of the global ones; and no others.
pub proof fn listings_are_complete(
    scope: ConnectionScope,
    origin: PeerOrigin,
    uid: u32,
    sudo_uid: Option<Seq<char>>,
    replies: Seq<StoreReply>,
    outcomes: Seq<DispatchOutcome>,
    k: int,
    list: Vec<ConnectionSummary>,
)
    requires
        laws::course(
            PrivilegedRequest::ListConnections { scope },
            origin,
            sudo_uid,
            replies,
            outcomes,
        ),
        origin == PeerOrigin::Socket(uid) || (origin == PeerOrigin::Stdio && uid == 0),
        0 <= k < outcomes.len(),
        outcomes[k] == DispatchOutcome::Immediate(PrivilegedResponse::ConnectionList(list)),
    ensures
        laws::called(outcomes[0]) == Some(StoreCall::LoadAll),
        replies[0] matches StoreReply::Records(Ok(all)) && match scope {
            ConnectionScope::All => uid == 0 && lists(list@, all@, replies, outcomes),
            ConnectionScope::Mine => lists(
                list@,
                all@.filter(|record: StoredConnection| record.owner_uid == Some(uid)),
                replies,
                outcomes,
            ),
            ConnectionScope::Global => lists(
                list@,
                all@.filter(|record: StoredConnection| record.global),
                replies,
                outcomes,
            ),
        },
{
    assert(laws::went_on(outcomes[0], replies[0], outcomes[1]));
    if let StoreReply::Records(Ok(all)) = replies[0] {
        lemma_listing(scope, origin, sudo_uid, replies, outcomes, all, k);
        lemma_scope_is_filter(all@, scope, origin, uid);
    } else if k > 1 {
        assert(laws::went_on(outcomes[1], replies[1], outcomes[2]));
    }
}

// ---- single connections -----------------------------------------------------

/// What a caller is shown of a connection is what was read as its record, with
/// its fingerprint. It is shown as up exactly when its tunnel was asked about
/// and said to be up.
pub proof fn connection_shown_is_the_one_asked_for(
    id: ConnectionId,
    origin: PeerOrigin,
    sudo_uid: Option<Seq<char>>,
    replies: Seq<StoreReply>,
    outcomes: Seq<DispatchOutcome>,
    k: int,
    summary: ConnectionSummary,
)
    requires
        laws::course(
            PrivilegedRequest::GetConnection { id },
            origin,
            sudo_uid,
            replies,
            outcomes,
        ),
        0 <= k < outcomes.len(),
        outcomes[k] == DispatchOutcome::Immediate(PrivilegedResponse::Connection(summary)),
    ensures
        k == 2,
        laws::called(outcomes[0]) == Some(StoreCall::Load { id }),
        replies[0] matches StoreReply::Record(Ok(Some(record))) && true_of_record(summary, record)
            && summary.fingerprint == Some(record.fingerprint),
        laws::called(outcomes[1]) == Some(StoreCall::IsActive { id }),
        summary.connected <==> said_up(replies, 0),
{
    assert(laws::went_on(outcomes[0], replies[0], outcomes[1]));
    if k > 1 {
        assert(laws::went_on(outcomes[1], replies[1], outcomes[2]));
        if let DispatchOutcome::Ask { state: HandlerState::Get(GetState::Checking(record)), .. } =
            outcomes[1] {
            if let StoreReply::Active(answer) = replies[1] {
                let shown = outcomes[2]->0->Connection_0;
                lemma_shows(shown, record, query::known_up(answer), true);
            }
        }
    }
    if k > 2 {
        assert(laws::went_on(outcomes[2], replies[2], outcomes[3]));
    }
}

// ---- interfaces -------------------------------------------------------------

/// A report on an interface is answered as the machine gave it.
pub proof fn report_is_the_machines(
    interface: String,
    origin: PeerOrigin,
    sudo_uid: Option<Seq<char>>,
    replies: Seq<StoreReply>,
    outcomes: Seq<DispatchOutcome>,
    k: int,
    response: PrivilegedResponse,
)
    requires
        laws::course(
            PrivilegedRequest::WgShow { interface },
            origin,
            sudo_uid,
            replies,
            outcomes,
        ),
        0 <= k < outcomes.len(),
        outcomes[k] == DispatchOutcome::Immediate(response),
        response !is Error,
    ensures
        k == 2,
        laws::called(outcomes[1]) == Some(StoreCall::WgShow { interface }),
        response matches PrivilegedResponse::Text(report) && replies[1] == StoreReply::Text(
            Ok(report),
        ),
{
    assert(laws::went_on(outcomes[0], replies[0], outcomes[1]));
    if k > 1 {
        assert(laws::went_on(outcomes[1], replies[1], outcomes[2]));
    }
    if k > 2 {
        assert(laws::went_on(outcomes[2], replies[2], outcomes[3]));
    }
}

/// The network overview of an interface is answered as the machine gave it, and
/// as an empty text where the interface offers none.
pub proof fn overview_is_the_machines(
    interface: String,
    origin: PeerOrigin,
    sudo_uid: Option<Seq<char>>,
    replies: Seq<StoreReply>,
    outcomes: Seq<DispatchOutcome>,
    k: int,
    response: PrivilegedResponse,
)
    requires
        laws::course(
            PrivilegedRequest::NetworkOverview { interface },
            origin,
            sudo_uid,
            replies,
            outcomes,
        ),
        0 <= k < outcomes.len(),
        outcomes[k] == DispatchOutcome::Immediate(response),
        response !is Error,
    ensures
        k == 2,
        laws::called(outcomes[1]) == Some(StoreCall::NetworkOverview { interface }),
        response matches PrivilegedResponse::Text(shown) && replies[1] matches
            StoreReply::Overview(Ok(overview)) && (match overview {
            Some(text) => shown@ == text@,
            None => shown@.len() == 0,
        }),
{
    assert(laws::went_on(outcomes[0], replies[0], outcomes[1]));
    if k > 1 {
        assert(laws::went_on(outcomes[1], replies[1], outcomes[2]));
    }
    if k > 2 {
        assert(laws::went_on(outcomes[2], replies[2], outcomes[3]));
    }
}

/// An interface is active exactly when its control socket is there: the file that
/// is named after it in the engine's directory.
pub proof fn activity_is_the_sockets(
    interface: String,
    origin: PeerOrigin,
    sudo_uid: Option<Seq<char>>,
    replies: Seq<StoreReply>,
    outcomes: Seq<DispatchOutcome>,
    k: int,
    response: PrivilegedResponse,
)
    requires
        laws::course(
            PrivilegedRequest::InterfaceActive { interface },
            origin,
            sudo_uid,
            replies,
            outcomes,
        ),
        0 <= k < outcomes.len(),
        outcomes[k] == DispatchOutcome::Immediate(response),
        response !is Error,
    ensures
        k == 2,
        laws::called(outcomes[1]) matches Some(StoreCall::SocketExists { path }) && path@ == (
        if interface@.len() > 0 && interface@[0] == '/' {
            interface@ + ".sock"@
        } else {
            "/var/run/wireguard/"@ + interface@ + ".sock"@
        }),
        response matches PrivilegedResponse::Bool(active) && replies[1] == StoreReply::Exists(
            active,
        ),
{
    assert(laws::went_on(outcomes[0], replies[0], outcomes[1]));
    if k > 1 {
        assert(laws::went_on(outcomes[1], replies[1], outcomes[2]));
    }
    if k > 2 {
        assert(laws::went_on(outcomes[2], replies[2], outcomes[3]));
    }
    reveal_strlit("/var/run/wireguard");
    reveal_strlit("/var/run/wireguard/");
    reveal_strlit("/");
    reveal_strlit(".sock");
    if let Some(StoreCall::SocketExists { path }) = laws::called(outcomes[1]) {
        assert("/var/run/wireguard"@ + "/"@ + (interface@ + ".sock"@) =~= "/var/run/wireguard/"@
            + interface@ + ".sock"@);
    }
}

} // verus!
