//! What an addition puts on record: what it was asked for.

use vstd::prelude::*;

use crate::privileged::add;
use crate::privileged::add::{AddState, NewConnection, RecordChange, ReconcileState};
use crate::privileged::dispatch::{DispatchOutcome, HandlerState, PeerOrigin};
use crate::privileged::laws;
use crate::privileged::mtu;
use crate::privileged::store::{ParsedConfig, StoreCall, StoreReply, StoredConnection};
use crate::privileged_api::{
    ConnectionId, ConnectionStartMode, PrivilegedRequest, PrivilegedResponse,
};

verus! {

/// The user that a record belongs to which an addition of this caller creates:
/// nobody where it is global, the caller over the socket, and over stdio the user
/// who ran `sudo`, or root where that user is not known.
pub open spec fn owner_of_addition(
    global: bool,
    origin: PeerOrigin,
    sudo_uid: Option<Seq<char>>,
) -> Option<u32> {
    if global {
        None
    } else {
        match origin {
            PeerOrigin::Socket(uid) => Some(uid),
            PeerOrigin::Stdio => match sudo_uid {
                None => Some(0),
                Some(text) => match crate::text::parsed_u32(text) {
                    Some(uid) => Some(uid),
                    None => Some(0),
                },
            },
        }
    }
}

/// The name is the one asked for; where none is asked for, any is.
pub open spec fn named_as_asked(name: Option<String>, asked: Option<String>) -> bool {
    asked matches Some(wanted) ==> (name matches Some(given) && given@ == wanted@)
}

/// Before step `k`, `text` was parsed as `parsed`.
pub open spec fn read_as(
    replies: Seq<StoreReply>,
    outcomes: Seq<DispatchOutcome>,
    k: int,
    text: String,
    parsed: ParsedConfig,
) -> bool {
    laws::exchanged(
        replies,
        outcomes,
        k,
        StoreCall::ParseConfig { conf_text: text },
        StoreReply::Parsed(Ok(parsed)),
    )
}

/// Before step `k`, `record` was found in the caller's scope with the content
/// that `text` was parsed as.
pub open spec fn found_stored(
    global: bool,
    origin: PeerOrigin,
    sudo_uid: Option<Seq<char>>,
    replies: Seq<StoreReply>,
    outcomes: Seq<DispatchOutcome>,
    k: int,
    text: String,
    record: StoredConnection,
) -> bool {
    exists|parsed: ParsedConfig| #[trigger]
        read_as(replies, outcomes, k, text, parsed) && laws::read_by(
            replies,
            outcomes,
            k,
            StoreCall::FindByIdentity {
                fingerprint: parsed.fingerprint,
                global,
                owner_uid: owner_of_addition(global, origin, sudo_uid),
            },
            record,
        )
}

/// `text` is what an addition of `conf_text` stores: the very text, with the MTU
/// override applied where there is one.
pub open spec fn stored_as(
    text: Seq<char>,
    conf_text: Seq<char>,
    mtu_override: Option<u16>,
) -> bool {
    match mtu_override {
        None => text == conf_text,
        Some(mtu) => text == mtu::mtu_applied(conf_text, mtu),
    }
}

proof fn lemma_asked(
    conf_text: String,
    global: bool,
    start_mode: ConnectionStartMode,
    name: Option<String>,
    mtu_override: Option<u16>,
    force: bool,
    auth: Option<Vec<u8>>,
    origin: PeerOrigin,
    sudo_uid: Option<Seq<char>>,
    replies: Seq<StoreReply>,
    outcomes: Seq<DispatchOutcome>,
)
    requires
        laws::course(
            PrivilegedRequest::AddConnection {
                conf_text,
                global,
                start_mode,
                name,
                mtu_override,
                force,
                auth_external_form: auth,
            },
            origin,
            sudo_uid,
            replies,
            outcomes,
        ),
        replies.len() > 0,
    ensures
        ({
            let own = laws::asked(outcomes);
            &&& stored_as(own.conf_text@, conf_text@, mtu_override)
            &&& own.global == global
            &&& own.owner_uid == owner_of_addition(global, origin, sudo_uid)
            &&& own.start_mode == start_mode
            &&& own.name == name
        }),
{
    assert(laws::went_on(outcomes[0], replies[0], outcomes[1]));
}

/// What an addition creates is what was asked for: the text with the MTU override
/// applied, and the content that this text was parsed as, in the scope of the
/// caller, under the name and with the start mode asked for, with an id and an
/// interface allocated for it, and with the time of the addition. The user has
/// not taken it down.
pub proof fn record_created_is_the_one_asked_for(
    conf_text: String,
    global: bool,
    start_mode: ConnectionStartMode,
    name: Option<String>,
    mtu_override: Option<u16>,
    force: bool,
    auth: Option<Vec<u8>>,
    origin: PeerOrigin,
    sudo_uid: Option<Seq<char>>,
    replies: Seq<StoreReply>,
    outcomes: Seq<DispatchOutcome>,
    k: int,
    record: StoredConnection,
)
    requires
        laws::course(
            PrivilegedRequest::AddConnection {
                conf_text,
                global,
                start_mode,
                name,
                mtu_override,
                force,
                auth_external_form: auth,
            },
            origin,
            sudo_uid,
            replies,
            outcomes,
        ),
        0 <= k < outcomes.len(),
        laws::called(outcomes[k]) == Some(StoreCall::Create { record }),
    ensures
        stored_as(record.raw_conf@, conf_text@, mtu_override),
        record.global == global,
        record.owner_uid == owner_of_addition(global, origin, sudo_uid),
        record.start_mode == start_mode,
        record.name == name,
        !record.user_disconnected,
        record.updated_at == record.created_at,
        laws::exchanged(
            replies,
            outcomes,
            k,
            StoreCall::Now,
            StoreReply::Time(record.created_at),
        ),
        laws::exchanged(
            replies,
            outcomes,
            k,
            StoreCall::AllocateInterface,
            StoreReply::Allocated(Ok((record.id, record.interface))),
        ),
        exists|parsed: ParsedConfig| #[trigger]
            read_as(replies, outcomes, k, record.raw_conf, parsed) && record.config
                == parsed.config && record.fingerprint == parsed.fingerprint,
{
    let request = PrivilegedRequest::AddConnection {
        conf_text,
        global,
        start_mode,
        name,
        mtu_override,
        force,
        auth_external_form: auth,
    };
    laws::lemma_addition(request, origin, sudo_uid, replies, outcomes, k);
    let p = k - 1;
    assert(k > 0);
    lemma_asked(
        conf_text,
        global,
        start_mode,
        name,
        mtu_override,
        force,
        auth,
        origin,
        sudo_uid,
        replies,
        outcomes,
    );
    laws::lemma_addition(request, origin, sudo_uid, replies, outcomes, p);
    assert(laws::went_on(outcomes[p], replies[p], outcomes[p + 1]));
    laws::lemma_exchanged_now(replies, outcomes, p, laws::called(outcomes[p])->0);
    if let DispatchOutcome::Ask { state: HandlerState::Add(AddState::Creating(id)), .. } =
        outcomes[k] {
        let new = choose|new: NewConnection| #[trigger]
            laws::new_on_course(new, replies, outcomes, k) && record == add::new_record(
                new,
                id,
                record.interface,
                record.created_at,
            );
        assert(read_as(replies, outcomes, k, record.raw_conf, new.parsed));
    }
}

/// What an addition writes anew is a record that it found in the caller's scope
/// with the content submitted, with the name and the start mode asked for and the
/// time of the change. A change to automatic forgets that the user took the
/// connection down; nothing else changes. It is written only where the name or the
/// mode differs, and a global connection is made to start by itself only for
/// verified credentials.
pub proof fn record_changed_is_as_asked_for(
    conf_text: String,
    global: bool,
    start_mode: ConnectionStartMode,
    name: Option<String>,
    mtu_override: Option<u16>,
    force: bool,
    auth: Option<Vec<u8>>,
    origin: PeerOrigin,
    sudo_uid: Option<Seq<char>>,
    replies: Seq<StoreReply>,
    outcomes: Seq<DispatchOutcome>,
    k: int,
    after: StoredConnection,
)
    requires
        laws::course(
            PrivilegedRequest::AddConnection {
                conf_text,
                global,
                start_mode,
                name,
                mtu_override,
                force,
                auth_external_form: auth,
            },
            origin,
            sudo_uid,
            replies,
            outcomes,
        ),
        0 <= k < outcomes.len(),
        laws::called(outcomes[k]) == Some(StoreCall::Update { record: after }),
    ensures
        after.start_mode == start_mode,
        named_as_asked(after.name, name),
        laws::exchanged(
            replies,
            outcomes,
            k,
            StoreCall::Now,
            StoreReply::Time(after.updated_at),
        ),
        exists|text: String, before: StoredConnection| #[trigger]
            found_stored(global, origin, sudo_uid, replies, outcomes, k, text, before) && {
                &&& stored_as(text@, conf_text@, mtu_override)
                &&& laws::same_content(before, after)
                &&& name is None ==> after.name == before.name
                &&& before.start_mode != start_mode || !named_as_asked(before.name, name)
                &&& after.user_disconnected == (before.user_disconnected && !(start_mode
                    != before.start_mode && start_mode == ConnectionStartMode::Automatic))
                &&& before.global && before.start_mode == ConnectionStartMode::Manual && start_mode
                    == ConnectionStartMode::Automatic ==> (auth matches Some(external_form)
                    && laws::carried_out(
                    replies,
                    outcomes,
                    k,
                    StoreCall::VerifyAdmin { external_form },
                ))
            },
{
    let request = PrivilegedRequest::AddConnection {
        conf_text,
        global,
        start_mode,
        name,
        mtu_override,
        force,
        auth_external_form: auth,
    };
    laws::lemma_addition(request, origin, sudo_uid, replies, outcomes, k);
    let p = k - 1;
    assert(k > 0);
    lemma_asked(
        conf_text,
        global,
        start_mode,
        name,
        mtu_override,
        force,
        auth,
        origin,
        sudo_uid,
        replies,
        outcomes,
    );
    laws::lemma_addition(request, origin, sudo_uid, replies, outcomes, p);
    assert(laws::went_on(outcomes[p], replies[p], outcomes[p + 1]));
    laws::lemma_exchanged_now(replies, outcomes, p, laws::called(outcomes[p])->0);
    laws::lemma_later(request, origin, arbitrary(), replies, outcomes, p);
    lemma_change_is_needed(request, origin, sudo_uid, replies, outcomes, p);
    let change = match outcomes[p] {
        DispatchOutcome::Ask {
            state: HandlerState::Reconcile(ReconcileState::ReadingClock(change)),
            ..
        } => change,
        _ => arbitrary(),
    };
    laws::lemma_addition_later(change.existing, arbitrary(), replies, outcomes, p);
    assert(after == add::changed_record(change, after.updated_at));
    let text = laws::asked(outcomes).conf_text;
    lemma_found_stored(global, origin, sudo_uid, replies, outcomes, k, change.existing);
    assert(found_stored(
        global,
        origin,
        sudo_uid,
        replies,
        outcomes,
        k,
        text,
        change.existing,
    ));
}

/// The change brings a name or a start mode that the record does not have.
spec fn needed(change: RecordChange) -> bool {
    change.existing.start_mode != change.start_mode || !named_as_asked(
        change.existing.name,
        change.name,
    )
}

proof fn lemma_change_is_needed(
    request: PrivilegedRequest,
    origin: PeerOrigin,
    sudo_uid: Option<Seq<char>>,
    replies: Seq<StoreReply>,
    outcomes: Seq<DispatchOutcome>,
    k: int,
)
    requires
        request is AddConnection,
        laws::course(request, origin, sudo_uid, replies, outcomes),
        0 <= k < outcomes.len(),
    ensures
        outcomes[k] matches DispatchOutcome::Ask { state: HandlerState::Reconcile(state), call: _ }
            ==> match state {
            ReconcileState::FindingName(change, _) => needed(change),
            ReconcileState::Authorizing(change) => needed(change),
            ReconcileState::Locking(change) => needed(change),
            ReconcileState::ReadingClock(change) => needed(change),
            ReconcileState::Updating(_) => true,
        },
    decreases k,
{
    if k > 0 {
        let p = k - 1;
        lemma_change_is_needed(request, origin, sudo_uid, replies, outcomes, p);
        laws::lemma_addition(request, origin, sudo_uid, replies, outcomes, p);
        assert(laws::went_on(outcomes[p], replies[p], outcomes[p + 1]));
    }
}

proof fn lemma_found_stored(
    global: bool,
    origin: PeerOrigin,
    sudo_uid: Option<Seq<char>>,
    replies: Seq<StoreReply>,
    outcomes: Seq<DispatchOutcome>,
    k: int,
    record: StoredConnection,
)
    requires
        laws::found_identical(replies, outcomes, k, record),
        laws::asked(outcomes).global == global,
        laws::asked(outcomes).owner_uid == owner_of_addition(global, origin, sudo_uid),
    ensures
        found_stored(
            global,
            origin,
            sudo_uid,
            replies,
            outcomes,
            k,
            laws::asked(outcomes).conf_text,
            record,
        ),
{
    let own = laws::asked(outcomes);
    let parsed = choose|parsed: ParsedConfig| #[trigger]
        laws::parsed_as(replies, outcomes, k, parsed) && laws::read_by(
            replies,
            outcomes,
            k,
            StoreCall::FindByIdentity {
                fingerprint: parsed.fingerprint,
                global: own.global,
                owner_uid: own.owner_uid,
            },
            record,
        );
    assert(read_as(replies, outcomes, k, own.conf_text, parsed));
}

/// An addition answers with an id, and the connection of that id is on record as
/// asked for: it was created, or it was written anew, or it was found stored with
/// the start mode and the name asked for.
pub proof fn addition_answered_is_on_record(
    conf_text: String,
    global: bool,
    start_mode: ConnectionStartMode,
    name: Option<String>,
    mtu_override: Option<u16>,
    force: bool,
    auth: Option<Vec<u8>>,
    origin: PeerOrigin,
    sudo_uid: Option<Seq<char>>,
    replies: Seq<StoreReply>,
    outcomes: Seq<DispatchOutcome>,
    k: int,
    response: PrivilegedResponse,
)
    requires
        laws::course(
            PrivilegedRequest::AddConnection {
                conf_text,
                global,
                start_mode,
                name,
                mtu_override,
                force,
                auth_external_form: auth,
            },
            origin,
            sudo_uid,
            replies,
            outcomes,
        ),
        0 <= k < outcomes.len(),
        outcomes[k] == DispatchOutcome::Immediate(response),
        response !is Error,
    ensures
        response matches PrivilegedResponse::ConnectionId(id) && exists|record: StoredConnection|
            record.id == id && #[trigger] put_on_record(
                global,
                origin,
                sudo_uid,
                replies,
                outcomes,
                k,
                record,
            ) && record.start_mode == start_mode && named_as_asked(record.name, name),
{
    let request = PrivilegedRequest::AddConnection {
        conf_text,
        global,
        start_mode,
        name,
        mtu_override,
        force,
        auth_external_form: auth,
    };
    let p = k - 1;
    if k > 0 {
        lemma_asked(
            conf_text,
            global,
            start_mode,
            name,
            mtu_override,
            force,
            auth,
            origin,
            sudo_uid,
            replies,
            outcomes,
        );
        laws::lemma_addition(request, origin, sudo_uid, replies, outcomes, p);
        assert(laws::went_on(outcomes[p], replies[p], outcomes[p + 1]));
        laws::lemma_exchanged_now(replies, outcomes, p, laws::called(outcomes[p])->0);
        match outcomes[p] {
            DispatchOutcome::Ask { state: HandlerState::Add(state), call } => match state {
                AddState::FindingIdentity(_, parsed) => {
                    laws::lemma_addition_later(arbitrary(), parsed, replies, outcomes, p);
                    if let StoreReply::Record(Ok(Some(existing))) = replies[p] {
                        assert(laws::read_by(replies, outcomes, k, call, existing));
                        assert(laws::found_identical(replies, outcomes, k, existing));
                        lemma_found_stored(
                            global,
                            origin,
                            sudo_uid,
                            replies,
                            outcomes,
                            k,
                            existing,
                        );
                        assert(put_on_record(
                            global,
                            origin,
                            sudo_uid,
                            replies,
                            outcomes,
                            k,
                            existing,
                        ));
                    }
                },
                AddState::Creating(_) => {
                    let record = call->Create_record;
                    record_created_is_the_one_asked_for(
                        conf_text,
                        global,
                        start_mode,
                        name,
                        mtu_override,
                        force,
                        auth,
                        origin,
                        sudo_uid,
                        replies,
                        outcomes,
                        p,
                        record,
                    );
                    assert(laws::called(outcomes[p]) == Some(StoreCall::Create { record }));
                    assert(put_on_record(global, origin, sudo_uid, replies, outcomes, k, record));
                },
                _ => {},
            },
            DispatchOutcome::Ask {
                state: HandlerState::Reconcile(ReconcileState::Updating(_)),
                call,
            } => {
                let record = call->Update_record;
                record_changed_is_as_asked_for(
                    conf_text,
                    global,
                    start_mode,
                    name,
                    mtu_override,
                    force,
                    auth,
                    origin,
                    sudo_uid,
                    replies,
                    outcomes,
                    p,
                    record,
                );
                assert(laws::called(outcomes[p]) == Some(StoreCall::Update { record }));
                assert(put_on_record(global, origin, sudo_uid, replies, outcomes, k, record));
            },
            _ => {},
        }
    }
}

/// Before step `k`, the record was created or written anew, or was found in the
/// caller's scope with the content submitted.
pub open spec fn put_on_record(
    global: bool,
    origin: PeerOrigin,
    sudo_uid: Option<Seq<char>>,
    replies: Seq<StoreReply>,
    outcomes: Seq<DispatchOutcome>,
    k: int,
    record: StoredConnection,
) -> bool {
    ||| laws::carried_out(replies, outcomes, k, StoreCall::Create { record })
    ||| laws::carried_out(replies, outcomes, k, StoreCall::Update { record })
    ||| exists|text: String| #[trigger]
        found_stored(global, origin, sudo_uid, replies, outcomes, k, text, record)
}

} // verus!
