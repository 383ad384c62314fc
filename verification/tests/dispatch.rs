//! The daemon's decisions, run against a connection store in memory.

use wgd::error::AppError;
use wgd::privileged::add::handle_add_connection;
use wgd::privileged::change::{handle_remove_connection, handle_set_connection_mode};
use wgd::privileged::control::ControlState;
use wgd::privileged::dispatch::{dispatch, resume, DispatchOutcome, PeerOrigin};
use wgd::privileged::mtu::apply_mtu_override_to_conf_text;
use wgd::privileged::query::{handle_get_connection, handle_list_connections};
use wgd::privileged::store::{
    ConnectionConfig, ParsedConfig, PeerConfig, StoreCall, StoreReply, StoredConnection,
};
use wgd::privileged::tunnel::{handle_connect_connection, handle_disconnect_connection};
use wgd::privileged_api::{
    ConnectReason, ConnectionId, ConnectionScope, ConnectionStartMode, ConnectionSummary,
    DisconnectReason, PrivilegedRequest, PrivilegedResponse,
};

const SAMPLE_CONF: &str = "[Interface]\nPrivateKey = AAAAAAAAAAAAAAAAAAAAAAAAAAAAAAAAAAAAAAAAAAA=\nAddress = 10.0.0.2/32\nDNS = 1.1.1.1\n[Peer]\nPublicKey = AQEBAQEBAQEBAQEBAQEBAQEBAQEBAQEBAQEBAQEBAQE=\nAllowedIPs = 0.0.0.0/0\nEndpoint = 198.51.100.1:51820\n";

// A different `Endpoint` port, standing in for "the profile file changed".
const SAMPLE_CONF_EDITED: &str = "[Interface]\nPrivateKey = AAAAAAAAAAAAAAAAAAAAAAAAAAAAAAAAAAAAAAAAAAA=\nAddress = 10.0.0.2/32\nDNS = 1.1.1.1\n[Peer]\nPublicKey = AQEBAQEBAQEBAQEBAQEBAQEBAQEBAQEBAQEBAQEBAQE=\nAllowedIPs = 0.0.0.0/0\nEndpoint = 198.51.100.1:51821\n";

const VALID_EXTERNAL_FORM: [u8; 32] = [7; 32];

/// A connection store in memory. Tunnels never come up here, and never go down.
struct TestStore {
    label: String,
    records: Vec<StoredConnection>,
    active: Vec<String>,
    allocated: u64,
    clock: u64,
    calls: Vec<String>,
    blocked: bool,
}

fn values(conf: &str, key: &str) -> Vec<String> {
    let mut found = Vec::new();
    for line in conf.lines() {
        if let Some((name, value)) = line.split_once('=') {
            if name.trim().eq_ignore_ascii_case(key) {
                found.push(value.trim().to_string());
            }
        }
    }
    found
}

fn parse(conf: &str) -> Result<ParsedConfig, AppError> {
    let keys = values(conf, "PrivateKey");
    if keys.is_empty() {
        return Err(AppError::WireGuard("no private key".to_string()));
    }
    let endpoint = values(conf, "Endpoint").first().cloned();
    let preshared_key = values(conf, "PresharedKey").first().cloned();
    let peers = values(conf, "PublicKey")
        .into_iter()
        .map(|public_key| PeerConfig {
            public_key,
            allowed_ips: values(conf, "AllowedIPs"),
            endpoint_literal: endpoint.clone(),
            preshared_key: preshared_key.clone(),
        })
        .collect();
    let config = ConnectionConfig {
        addresses: values(conf, "Address"),
        dns_servers: values(conf, "DNS"),
        mtu: values(conf, "MTU").first().and_then(|mtu| mtu.parse().ok()),
        peers,
    };
    let fingerprint = format!("parsed:{:?}:{:?}", keys, config);
    Ok(ParsedConfig {
        config,
        fingerprint,
    })
}

impl TestStore {
    fn load(&self, id: &ConnectionId) -> Option<StoredConnection> {
        self.records.iter().find(|r| r.id == *id).cloned()
    }

    fn put(&mut self, record: StoredConnection) {
        for stored in self.records.iter_mut() {
            if stored.id == record.id {
                *stored = record;
                return;
            }
        }
        panic!("no such record in {}", self.label);
    }

    fn find(&self, wanted: impl Fn(&StoredConnection) -> bool) -> StoreReply {
        StoreReply::Record(Ok(self.records.iter().find(|r| wanted(r)).cloned()))
    }

    fn lock(&self) -> StoreReply {
        if self.blocked {
            StoreReply::Done(Err(AppError::Io {
                would_block: true,
                message: "locked".to_string(),
            }))
        } else {
            StoreReply::Done(Ok(()))
        }
    }

    fn perform(&mut self, call: StoreCall) -> StoreReply {
        self.calls.push(format!("{call:?}"));
        match call {
            StoreCall::ParseConfig { conf_text } => StoreReply::Parsed(parse(&conf_text)),
            StoreCall::LockIndex => StoreReply::Done(Ok(())),
            StoreCall::LockConnection { id: _ } => self.lock(),
            StoreCall::LockConnectionPatient { id: _ } => self.lock(),
            StoreCall::FindByIdentity {
                fingerprint,
                global,
                owner_uid,
            } => self.find(|r| {
                r.fingerprint == fingerprint && r.global == global && r.owner_uid == owner_uid
            }),
            StoreCall::FindByName {
                name,
                global,
                owner_uid,
            } => self.find(|r| {
                r.name.as_deref() == Some(name.as_str())
                    && r.global == global
                    && r.owner_uid == owner_uid
            }),
            StoreCall::FindByInterface { interface } => self.find(|r| r.interface == interface),
            StoreCall::Load { id } => StoreReply::Record(Ok(self.load(&id))),
            StoreCall::LoadAll => StoreReply::Records(Ok(self.records.clone())),
            StoreCall::IsActive { id } => StoreReply::Active(Ok(self.active.contains(&id.text))),
            StoreCall::VerifyAdmin { external_form } => {
                StoreReply::Done(if external_form == VALID_EXTERNAL_FORM {
                    Ok(())
                } else {
                    Err(AppError::Auth("authorization denied".to_string()))
                })
            }
            StoreCall::AllocateInterface => {
                self.allocated += 1;
                StoreReply::Allocated(Ok((
                    ConnectionId {
                        text: format!("00000000-0000-4000-8000-{:012}", self.allocated),
                    },
                    format!("wg-{:08}", self.allocated),
                )))
            }
            StoreCall::Now => {
                self.clock += 1;
                StoreReply::Time(self.clock)
            }
            StoreCall::Create { record } => {
                self.records.push(record);
                StoreReply::Done(Ok(()))
            }
            StoreCall::Update { record } => {
                self.put(record);
                StoreReply::Done(Ok(()))
            }
            StoreCall::Remove { id } => {
                self.records.retain(|r| r.id != id);
                StoreReply::Done(Ok(()))
            }
            StoreCall::Connect { id: _, debug: _ } => StoreReply::Done(Err(AppError::WireGuard(
                "no networking here".to_string(),
            ))),
            StoreCall::Disconnect { id: _ } => StoreReply::Done(Err(AppError::WireGuard(
                "no networking here".to_string(),
            ))),
            StoreCall::WgShow { interface: _ } => StoreReply::Text(Err(AppError::WireGuard(
                "no such interface".to_string(),
            ))),
            StoreCall::NetworkOverview { interface: _ } => StoreReply::Overview(Ok(None)),
            StoreCall::SocketExists { path: _ } => StoreReply::Exists(false),
        }
    }

    /// Goes on until the request is answered.
    fn answer(&mut self, outcome: DispatchOutcome) -> PrivilegedResponse {
        let mut outcome = outcome;
        loop {
            outcome = match outcome {
                DispatchOutcome::Immediate(response) => return response,
                DispatchOutcome::Ask { state, call } => resume(state, self.perform(call)),
                DispatchOutcome::Pending { worker, call } => resume(worker, self.perform(call)),
            };
        }
    }

    /// Goes on until the request is answered, or is to go on in a worker.
    fn until_worker(&mut self, outcome: DispatchOutcome) -> DispatchOutcome {
        let mut outcome = outcome;
        loop {
            outcome = match outcome {
                DispatchOutcome::Ask { state, call } => resume(state, self.perform(call)),
                other => return other,
            };
        }
    }

    fn called(&self, kind: &str) -> bool {
        self.calls.iter().any(|call| call.starts_with(kind))
    }
}

fn with_test_store<R>(label: &str, body: impl FnOnce(&mut TestStore) -> R) -> R {
    let mut store = TestStore {
        label: label.to_string(),
        records: Vec::new(),
        active: Vec::new(),
        allocated: 0,
        clock: 1_700_000_000,
        calls: Vec::new(),
        blocked: false,
    };
    body(&mut store)
}

#[allow(clippy::too_many_arguments)]
fn add_full(
    store: &mut TestStore,
    origin: PeerOrigin,
    conf: &str,
    global: bool,
    start_mode: ConnectionStartMode,
    name: Option<&str>,
    mtu: Option<u16>,
    force: bool,
    auth: Option<Vec<u8>>,
) -> PrivilegedResponse {
    let outcome = handle_add_connection(
        origin,
        conf.to_string(),
        global,
        start_mode,
        name.map(|name| name.to_string()),
        mtu,
        force,
        auth,
        &None,
    );
    store.answer(outcome)
}

fn add_connection(
    store: &mut TestStore,
    origin: PeerOrigin,
    conf: &str,
    global: bool,
    auth: Option<Vec<u8>>,
) -> PrivilegedResponse {
    add_full(
        store,
        origin,
        conf,
        global,
        ConnectionStartMode::Manual,
        None,
        None,
        false,
        auth,
    )
}

fn remove(
    store: &mut TestStore,
    origin: PeerOrigin,
    id: &ConnectionId,
    auth: Option<Vec<u8>>,
) -> PrivilegedResponse {
    let outcome = handle_remove_connection(origin, id.clone(), auth);
    store.answer(outcome)
}

fn set_mode(
    store: &mut TestStore,
    origin: PeerOrigin,
    id: &ConnectionId,
    mode: ConnectionStartMode,
    auth: Option<Vec<u8>>,
) -> PrivilegedResponse {
    let outcome = handle_set_connection_mode(origin, id.clone(), mode, auth);
    store.answer(outcome)
}

fn valid_auth() -> Option<Vec<u8>> {
    Some(VALID_EXTERNAL_FORM.to_vec())
}

fn connection_id(response: &PrivilegedResponse) -> ConnectionId {
    match response {
        PrivilegedResponse::ConnectionId(id) => id.clone(),
        other => panic!("expected ConnectionId response, got {other:?}"),
    }
}

fn error_code(response: &PrivilegedResponse) -> String {
    match response {
        PrivilegedResponse::Error(error) => error.code(),
        other => panic!("expected an Error response, got {other:?}"),
    }
}

fn error_message(response: &PrivilegedResponse) -> String {
    match response {
        PrivilegedResponse::Error(error) => error.message(),
        other => panic!("expected an Error response, got {other:?}"),
    }
}

fn error_code_opt(response: &PrivilegedResponse) -> Option<String> {
    match response {
        PrivilegedResponse::Error(error) => Some(error.code()),
        _ => None,
    }
}

fn unknown_id() -> ConnectionId {
    ConnectionId {
        text: "ffffffff-0000-4000-8000-000000000000".to_string(),
    }
}

fn mark_disconnected(store: &mut TestStore, id: &ConnectionId) {
    let mut stored = store.load(id).unwrap();
    stored.user_disconnected = true;
    store.put(stored);
}

fn worker(store: &mut TestStore, outcome: DispatchOutcome) -> DispatchOutcome {
    match store.until_worker(outcome) {
        DispatchOutcome::Immediate(response) => {
            panic!("authorized request must go on in a worker, got {response:?}")
        }
        pending => pending,
    }
}

#[test]
fn add_connection_global_requires_root() {
    with_test_store("global-root", |store| {
        let response = add_connection(
            store,
            PeerOrigin::Socket(501),
            SAMPLE_CONF,
            true,
            valid_auth(),
        );
        assert_eq!(error_code(&response), "Auth");
        assert_eq!(
            error_message(&response),
            "adding a global connection requires root"
        );
        assert!(store.calls.is_empty());
    });
}

#[test]
fn add_connection_new_config_requires_admin_auth_then_succeeds_with_it() {
    with_test_store("new-config-auth", |store| {
        let without_token = add_connection(store, PeerOrigin::Socket(0), SAMPLE_CONF, true, None);
        assert_eq!(error_code(&without_token), "AuthRequired");

        let with_token = add_connection(
            store,
            PeerOrigin::Socket(0),
            SAMPLE_CONF,
            true,
            valid_auth(),
        );
        assert!(matches!(with_token, PrivilegedResponse::ConnectionId(_)));
    });
}

#[test]
fn add_connection_rejects_a_forged_auth_token() {
    with_test_store("forged-token", |store| {
        let bogus: Option<Vec<u8>> = Some(vec![0u8; 32]);
        let response = add_connection(store, PeerOrigin::Socket(0), SAMPLE_CONF, true, bogus);
        assert_eq!(error_code(&response), "Auth");
        assert_eq!(error_message(&response), "authorization denied");
        assert!(store.records.is_empty());
    });
}

#[test]
fn add_connection_identical_resubmission_is_idempotent_without_auth() {
    with_test_store("dedup", |store| {
        let first = add_connection(
            store,
            PeerOrigin::Socket(0),
            SAMPLE_CONF,
            true,
            valid_auth(),
        );
        let first_id = connection_id(&first);
        store.calls.clear();

        // No auth token this time: an exact-match resubmission must be a
        // silent no-op, never re-engaging the admin-auth flow.
        let second = add_connection(store, PeerOrigin::Socket(0), SAMPLE_CONF, true, None);
        assert_eq!(connection_id(&second), first_id);
        assert!(!store.called("VerifyAdmin"));
        assert!(!store.called("Update"));
        assert_eq!(store.records.len(), 1);
    });
}

#[test]
fn add_connection_resubmission_with_new_name_updates_it_without_auth() {
    with_test_store("dedup-rename", |store| {
        let first = add_full(
            store,
            PeerOrigin::Socket(501),
            SAMPLE_CONF,
            false,
            ConnectionStartMode::Manual,
            Some("old-name"),
            None,
            false,
            valid_auth(),
        );
        let id = connection_id(&first);

        // No auth token: a plain rename on an identical resubmission must
        // not engage the admin-auth flow.
        let renamed = add_full(
            store,
            PeerOrigin::Socket(501),
            SAMPLE_CONF,
            false,
            ConnectionStartMode::Manual,
            Some("new-name"),
            None,
            false,
            None,
        );
        assert_eq!(connection_id(&renamed), id);
        let stored = store.load(&id).unwrap();
        assert_eq!(stored.name.as_deref(), Some("new-name"));
    });
}

#[test]
fn add_connection_resubmission_rejects_colliding_name_unless_forced() {
    with_test_store("dedup-name-collision", |store| {
        let other_conf = SAMPLE_CONF.replace("10.0.0.2/32", "10.0.0.3/32");
        let first = add_full(
            store,
            PeerOrigin::Socket(501),
            SAMPLE_CONF,
            false,
            ConnectionStartMode::Manual,
            Some("a"),
            None,
            false,
            valid_auth(),
        );
        let first_id = connection_id(&first);
        let second = add_full(
            store,
            PeerOrigin::Socket(501),
            &other_conf,
            false,
            ConnectionStartMode::Manual,
            Some("b"),
            None,
            false,
            valid_auth(),
        );
        let second_id = connection_id(&second);
        assert_ne!(first_id, second_id);

        // Resubmitting the second connection's exact content but asking
        // for the first connection's name must be rejected without
        // `force`...
        let collision = add_full(
            store,
            PeerOrigin::Socket(501),
            &other_conf,
            false,
            ConnectionStartMode::Manual,
            Some("a"),
            None,
            false,
            None,
        );
        assert_eq!(error_code(&collision), "NameInUse");
        assert_eq!(
            error_message(&collision),
            format!(
                "a connection named \"a\" already exists ({}); remove it first, or resubmit allowing the name to be replaced",
                first_id.text
            )
        );

        // ...and succeed, replacing the name, with it.
        let forced = add_full(
            store,
            PeerOrigin::Socket(501),
            &other_conf,
            false,
            ConnectionStartMode::Manual,
            Some("a"),
            None,
            true,
            None,
        );
        assert_eq!(connection_id(&forced), second_id);
        let stored = store.load(&second_id).unwrap();
        assert_eq!(stored.name.as_deref(), Some("a"));
    });
}

#[test]
fn add_connection_resubmission_elevating_global_start_mode_requires_auth() {
    with_test_store("dedup-elevate", |store| {
        let first = add_connection(
            store,
            PeerOrigin::Socket(0),
            SAMPLE_CONF,
            true,
            valid_auth(),
        );
        let id = connection_id(&first);
        assert_eq!(
            store.load(&id).unwrap().start_mode,
            ConnectionStartMode::Manual
        );

        // Same content, but now asking to elevate the global connection
        // to auto-run as root at every future boot: must require auth,
        // exactly like `SetConnectionMode`'s own Manual -> Automatic gate
        // on a global connection.
        let without_token = add_full(
            store,
            PeerOrigin::Socket(0),
            SAMPLE_CONF,
            true,
            ConnectionStartMode::Automatic,
            None,
            None,
            false,
            None,
        );
        assert_eq!(error_code(&without_token), "AuthRequired");
        assert_eq!(
            store.load(&id).unwrap().start_mode,
            ConnectionStartMode::Manual,
            "must not elevate before a valid token is presented"
        );

        let with_token = add_full(
            store,
            PeerOrigin::Socket(0),
            SAMPLE_CONF,
            true,
            ConnectionStartMode::Automatic,
            None,
            None,
            false,
            valid_auth(),
        );
        assert_eq!(connection_id(&with_token), id);
        assert_eq!(
            store.load(&id).unwrap().start_mode,
            ConnectionStartMode::Automatic
        );
    });
}

#[test]
fn add_connection_resubmission_non_elevating_start_mode_change_needs_no_auth() {
    with_test_store("dedup-non-elevate", |store| {
        // Per-user connections never require admin auth for `start_mode`
        // (only a *global* Manual -> Automatic transition does), so this
        // must succeed with no token at all.
        let first = add_full(
            store,
            PeerOrigin::Socket(501),
            SAMPLE_CONF,
            false,
            ConnectionStartMode::Manual,
            None,
            None,
            false,
            valid_auth(),
        );
        let id = connection_id(&first);

        let updated = add_full(
            store,
            PeerOrigin::Socket(501),
            SAMPLE_CONF,
            false,
            ConnectionStartMode::Automatic,
            None,
            None,
            false,
            None,
        );
        assert_eq!(connection_id(&updated), id);
        assert_eq!(
            store.load(&id).unwrap().start_mode,
            ConnectionStartMode::Automatic
        );
    });
}

#[test]
fn add_connection_resubmission_landing_on_automatic_clears_user_disconnected() {
    with_test_store("dedup-clears-intent", |store| {
        let id = connection_id(&add_full(
            store,
            PeerOrigin::Socket(501),
            SAMPLE_CONF,
            false,
            ConnectionStartMode::Manual,
            None,
            None,
            false,
            valid_auth(),
        ));
        mark_disconnected(store, &id);

        // The shape of `connection add --force --start-mode automatic`:
        // identical content, mode moving to Automatic.
        add_full(
            store,
            PeerOrigin::Socket(501),
            SAMPLE_CONF,
            false,
            ConnectionStartMode::Automatic,
            None,
            None,
            false,
            None,
        );
        assert!(!store.load(&id).unwrap().user_disconnected);
    });
}

#[test]
fn add_connection_same_text_different_global_scope_is_a_distinct_connection() {
    with_test_store("scope-distinct", |store| {
        let global = connection_id(&add_connection(
            store,
            PeerOrigin::Socket(0),
            SAMPLE_CONF,
            true,
            valid_auth(),
        ));
        let per_user = connection_id(&add_connection(
            store,
            PeerOrigin::Socket(501),
            SAMPLE_CONF,
            false,
            valid_auth(),
        ));
        assert_ne!(global, per_user);
    });
}

#[test]
fn additions_change_only_records_of_their_own_scope() {
    with_test_store("scope-kept", |store| {
        let add = |store: &mut TestStore, origin, global, name: &str| {
            connection_id(&add_full(
                store,
                origin,
                SAMPLE_CONF,
                global,
                ConnectionStartMode::Manual,
                Some(name),
                None,
                false,
                valid_auth(),
            ))
        };
        let global = add(store, PeerOrigin::Socket(0), true, "everyones");
        let one = add(store, PeerOrigin::Socket(501), false, "one");
        let other = add(store, PeerOrigin::Socket(502), false, "other");
        assert_eq!(store.records.len(), 3);

        // The same content again, under another name: the caller's own record it is.
        assert_eq!(add(store, PeerOrigin::Socket(502), false, "renamed"), other);
        assert_eq!(store.records.len(), 3);
        let name = |id: &ConnectionId| store.load(id).unwrap().name.unwrap();
        assert_eq!(name(&global), "everyones");
        assert_eq!(name(&one), "one");
        assert_eq!(name(&other), "renamed");
    });
}

#[test]
fn remove_connection_nonexistent_returns_not_found_without_engaging_auth() {
    with_test_store("remove-missing", |store| {
        let response = remove(store, PeerOrigin::Socket(0), &unknown_id(), None);
        assert_eq!(error_code(&response), "NotFound");
        assert_eq!(error_message(&response), "connection not found");
    });
}

#[test]
fn remove_connection_refuses_while_active_without_engaging_auth() {
    with_test_store("remove-active", |store| {
        let id = connection_id(&add_connection(
            store,
            PeerOrigin::Socket(501),
            SAMPLE_CONF,
            false,
            valid_auth(),
        ));
        store.active.push(id.text.clone());
        store.calls.clear();

        // No auth token: a `Busy` refusal must not even reach the
        // admin-auth check.
        let response = remove(store, PeerOrigin::Socket(501), &id, None);
        assert_eq!(error_code(&response), "Busy");
        assert_eq!(
            error_message(&response),
            "connection is active; disconnect it before removing"
        );
        assert!(!store.called("VerifyAdmin"));
    });
}

#[test]
fn remove_connection_requires_ownership_or_root() {
    with_test_store("remove-ownership", |store| {
        let id = connection_id(&add_connection(
            store,
            PeerOrigin::Socket(501),
            SAMPLE_CONF,
            false,
            valid_auth(),
        ));

        let denied = remove(store, PeerOrigin::Socket(502), &id, valid_auth());
        assert_eq!(error_code(&denied), "Auth");

        let owner_without_auth = remove(store, PeerOrigin::Socket(501), &id, None);
        assert_eq!(error_code(&owner_without_auth), "AuthRequired");

        let owner_with_auth = remove(store, PeerOrigin::Socket(501), &id, valid_auth());
        assert!(matches!(owner_with_auth, PrivilegedResponse::Unit));
    });
}

#[test]
fn root_may_remove_any_users_connection() {
    with_test_store("remove-root", |store| {
        let id = connection_id(&add_connection(
            store,
            PeerOrigin::Socket(501),
            SAMPLE_CONF,
            false,
            valid_auth(),
        ));
        let response = remove(store, PeerOrigin::Socket(0), &id, valid_auth());
        assert!(matches!(response, PrivilegedResponse::Unit));
    });
}

#[test]
fn connect_and_disconnect_reject_a_non_owner_before_spawning_any_worker() {
    with_test_store("connect-ownership", |store| {
        let id = connection_id(&add_connection(
            store,
            PeerOrigin::Socket(501),
            SAMPLE_CONF,
            false,
            valid_auth(),
        ));

        let begun = handle_connect_connection(
            PeerOrigin::Socket(502),
            id.clone(),
            false,
            ConnectReason::User,
        );
        match store.until_worker(begun) {
            DispatchOutcome::Immediate(response) => assert_eq!(error_code(&response), "Auth"),
            _ => panic!("unauthorized connect must not spawn a worker"),
        }
        let begun =
            handle_disconnect_connection(PeerOrigin::Socket(502), id, DisconnectReason::User);
        match store.until_worker(begun) {
            DispatchOutcome::Immediate(response) => assert_eq!(error_code(&response), "Auth"),
            _ => panic!("unauthorized disconnect must not spawn a worker"),
        }
    });
}

#[test]
fn legacy_wg_show_is_gated_by_ownership_when_interface_belongs_to_a_connection() {
    with_test_store("legacy-gate-wgshow", |store| {
        let id = connection_id(&add_connection(
            store,
            PeerOrigin::Socket(501),
            SAMPLE_CONF,
            false,
            valid_auth(),
        ));
        let interface = store.load(&id).unwrap().interface;
        let mut control_state = ControlState::new(false);

        let denied = dispatch(
            PrivilegedRequest::WgShow {
                interface: interface.clone(),
            },
            &mut control_state,
            PeerOrigin::Socket(502),
            &None,
            &Vec::new(),
        );
        match store.until_worker(denied) {
            DispatchOutcome::Immediate(response) => assert_eq!(error_code(&response), "Auth"),
            _ => panic!("WgShow must be an immediate response"),
        }
        assert!(!store.called("WgShow"));

        // The owner is not blocked by the ownership gate (WgShow itself
        // still errors here since no real tunnel is up, but that error must
        // not be "Auth").
        let owner_attempt = dispatch(
            PrivilegedRequest::WgShow { interface },
            &mut control_state,
            PeerOrigin::Socket(501),
            &None,
            &Vec::new(),
        );
        match store.until_worker(owner_attempt) {
            DispatchOutcome::Immediate(response) => {
                assert_ne!(error_code_opt(&response).as_deref(), Some("Auth"));
                assert_eq!(error_code_opt(&response).as_deref(), Some("WireGuard"));
            }
            _ => panic!("WgShow must be an immediate response"),
        }
    });
}

#[test]
fn legacy_ops_on_an_unmanaged_interface_are_not_gated() {
    with_test_store("legacy-unmanaged", |store| {
        let mut control_state = ControlState::new(false);
        let response = dispatch(
            PrivilegedRequest::InterfaceActive {
                interface: "wgconf0".to_string(),
            },
            &mut control_state,
            PeerOrigin::Socket(501),
            &None,
            &Vec::new(),
        );
        match store.until_worker(response) {
            DispatchOutcome::Immediate(PrivilegedResponse::Bool(_)) => {}
            DispatchOutcome::Immediate(_) => {
                panic!("expected an unauthorized-gate-free Bool response")
            }
            _ => panic!("InterfaceActive must be an immediate response"),
        }
        assert!(store.called("SocketExists { path: \"/var/run/wireguard/wgconf0.sock\" }"));
    });
}

#[test]
fn connect_on_nonexistent_connection_is_not_found() {
    with_test_store("connect-missing", |store| {
        let begun = handle_connect_connection(
            PeerOrigin::Socket(0),
            unknown_id(),
            false,
            ConnectReason::User,
        );
        match store.until_worker(begun) {
            DispatchOutcome::Immediate(response) => assert_eq!(error_code(&response), "NotFound"),
            _ => panic!("nonexistent connection must not spawn a worker"),
        }
    });
}

#[test]
fn connect_by_the_owner_spawns_a_worker_and_eventually_responds() {
    with_test_store("connect-worker", |store| {
        let id = connection_id(&add_connection(
            store,
            PeerOrigin::Socket(501),
            SAMPLE_CONF,
            false,
            valid_auth(),
        ));
        let begun =
            handle_connect_connection(PeerOrigin::Socket(501), id, false, ConnectReason::User);
        let pending = worker(store, begun);
        assert!(matches!(pending, DispatchOutcome::Pending { .. }));
        let response = store.answer(pending);
        assert_eq!(error_code(&response), "WireGuard");
    });
}

#[test]
fn explicit_disconnect_records_user_intent_even_though_teardown_fails_here() {
    with_test_store("disconnect-marks-intent", |store| {
        let id = connection_id(&add_connection(
            store,
            PeerOrigin::Socket(501),
            SAMPLE_CONF,
            false,
            valid_auth(),
        ));
        let begun = handle_disconnect_connection(
            PeerOrigin::Socket(501),
            id.clone(),
            DisconnectReason::User,
        );
        let pending = worker(store, begun);
        let response = store.answer(pending);
        assert_eq!(error_code(&response), "WireGuard");
        assert!(store.load(&id).unwrap().user_disconnected);
    });
}

#[test]
fn session_teardown_disconnect_does_not_record_user_intent() {
    with_test_store("disconnect-teardown-no-intent", |store| {
        let id = connection_id(&add_connection(
            store,
            PeerOrigin::Socket(501),
            SAMPLE_CONF,
            false,
            valid_auth(),
        ));
        let begun = handle_disconnect_connection(
            PeerOrigin::Socket(501),
            id.clone(),
            DisconnectReason::SessionTeardown,
        );
        let pending = worker(store, begun);
        store.answer(pending);
        assert!(!store.load(&id).unwrap().user_disconnected);
        assert!(store.called("Disconnect"));
    });
}

#[test]
fn explicit_connect_clears_user_disconnected_before_bring_up_is_attempted() {
    with_test_store("connect-clears-intent", |store| {
        let id = connection_id(&add_connection(
            store,
            PeerOrigin::Socket(501),
            SAMPLE_CONF,
            false,
            valid_auth(),
        ));
        mark_disconnected(store, &id);

        let begun = handle_connect_connection(
            PeerOrigin::Socket(501),
            id.clone(),
            false,
            ConnectReason::User,
        );
        let pending = worker(store, begun);
        store.answer(pending);
        assert!(!store.load(&id).unwrap().user_disconnected);
    });
}

#[test]
fn reconciliation_connect_backs_off_and_does_not_clear_a_fresh_user_disconnect() {
    with_test_store("reconciliation-connect-backs-off", |store| {
        let id = connection_id(&add_connection(
            store,
            PeerOrigin::Socket(501),
            SAMPLE_CONF,
            false,
            valid_auth(),
        ));
        mark_disconnected(store, &id);

        let begun = handle_connect_connection(
            PeerOrigin::Socket(501),
            id.clone(),
            false,
            ConnectReason::Reconciliation,
        );
        let pending = worker(store, begun);
        let response = store.answer(pending);
        // A real connect attempt always fails here, so `Unit` proves that it
        // was never made, not just that the flag happened to survive.
        assert!(
            matches!(response, PrivilegedResponse::Unit),
            "expected the connect to be skipped, got {response:?}"
        );
        assert!(
            store.load(&id).unwrap().user_disconnected,
            "a reconciliation connect must never clear an explicit user disconnect"
        );
    });
}

#[test]
fn reconciliation_connect_proceeds_when_not_user_disconnected() {
    with_test_store("reconciliation-connect-proceeds", |store| {
        let id = connection_id(&add_connection(
            store,
            PeerOrigin::Socket(501),
            SAMPLE_CONF,
            false,
            valid_auth(),
        ));
        let begun = handle_connect_connection(
            PeerOrigin::Socket(501),
            id.clone(),
            false,
            ConnectReason::Reconciliation,
        );
        let pending = worker(store, begun);
        let response = store.answer(pending);
        assert!(
            matches!(response, PrivilegedResponse::Error(_)),
            "expected the connect to actually be attempted, got {response:?}"
        );
        assert!(!store.load(&id).unwrap().user_disconnected);
    });
}

#[test]
fn set_connection_mode_elevating_a_global_connection_requires_auth() {
    with_test_store("mode-elevate", |store| {
        let id = connection_id(&add_connection(
            store,
            PeerOrigin::Socket(0),
            SAMPLE_CONF,
            true,
            valid_auth(),
        ));

        let without_auth = set_mode(
            store,
            PeerOrigin::Socket(0),
            &id,
            ConnectionStartMode::Automatic,
            None,
        );
        assert_eq!(error_code(&without_auth), "AuthRequired");

        let with_auth = set_mode(
            store,
            PeerOrigin::Socket(0),
            &id,
            ConnectionStartMode::Automatic,
            valid_auth(),
        );
        assert!(matches!(with_auth, PrivilegedResponse::Unit));
    });
}

#[test]
fn set_connection_mode_downgrading_a_global_connection_needs_no_auth() {
    with_test_store("mode-downgrade", |store| {
        let id = connection_id(&add_connection(
            store,
            PeerOrigin::Socket(0),
            SAMPLE_CONF,
            true,
            valid_auth(),
        ));
        set_mode(
            store,
            PeerOrigin::Socket(0),
            &id,
            ConnectionStartMode::Automatic,
            valid_auth(),
        );

        let response = set_mode(
            store,
            PeerOrigin::Socket(0),
            &id,
            ConnectionStartMode::Manual,
            None,
        );
        assert!(matches!(response, PrivilegedResponse::Unit));
    });
}

#[test]
fn set_connection_mode_on_a_per_user_connection_needs_no_auth() {
    with_test_store("mode-per-user", |store| {
        let id = connection_id(&add_connection(
            store,
            PeerOrigin::Socket(501),
            SAMPLE_CONF,
            false,
            valid_auth(),
        ));
        let response = set_mode(
            store,
            PeerOrigin::Socket(501),
            &id,
            ConnectionStartMode::Automatic,
            None,
        );
        assert!(matches!(response, PrivilegedResponse::Unit));
    });
}

#[test]
fn set_connection_mode_to_automatic_clears_user_disconnected() {
    with_test_store("mode-clears-intent", |store| {
        let id = connection_id(&add_connection(
            store,
            PeerOrigin::Socket(501),
            SAMPLE_CONF,
            false,
            valid_auth(),
        ));
        mark_disconnected(store, &id);

        // Manual -> Automatic: an actual mode change landing on Automatic.
        let response = set_mode(
            store,
            PeerOrigin::Socket(501),
            &id,
            ConnectionStartMode::Automatic,
            None,
        );
        assert!(matches!(response, PrivilegedResponse::Unit));
        assert!(!store.load(&id).unwrap().user_disconnected);
    });
}

#[test]
fn set_connection_mode_no_op_does_not_touch_user_disconnected() {
    with_test_store("mode-noop-keeps-intent", |store| {
        let id = connection_id(&add_connection(
            store,
            PeerOrigin::Socket(501),
            SAMPLE_CONF,
            false,
            valid_auth(),
        ));
        set_mode(
            store,
            PeerOrigin::Socket(501),
            &id,
            ConnectionStartMode::Automatic,
            None,
        );
        mark_disconnected(store, &id);

        // Already Automatic; re-requesting Automatic is a no-op and must
        // not clear the flag.
        let response = set_mode(
            store,
            PeerOrigin::Socket(501),
            &id,
            ConnectionStartMode::Automatic,
            None,
        );
        assert!(matches!(response, PrivilegedResponse::Unit));
        assert!(store.load(&id).unwrap().user_disconnected);
    });
}

#[test]
fn set_connection_mode_no_op_needs_no_auth() {
    with_test_store("mode-noop", |store| {
        let id = connection_id(&add_connection(
            store,
            PeerOrigin::Socket(0),
            SAMPLE_CONF,
            true,
            valid_auth(),
        ));
        // Already Manual; re-requesting Manual is a no-op even though the
        // connection is global.
        let response = set_mode(
            store,
            PeerOrigin::Socket(0),
            &id,
            ConnectionStartMode::Manual,
            None,
        );
        assert!(matches!(response, PrivilegedResponse::Unit));
    });
}

fn list(store: &mut TestStore, origin: PeerOrigin, scope: ConnectionScope) -> PrivilegedResponse {
    let outcome = handle_list_connections(origin, scope);
    store.answer(outcome)
}

#[test]
fn list_connections_all_requires_root() {
    with_test_store("list-all", |store| {
        let response = list(store, PeerOrigin::Socket(501), ConnectionScope::All);
        assert_eq!(error_code(&response), "Auth");
        let response = list(store, PeerOrigin::Socket(0), ConnectionScope::All);
        assert!(matches!(response, PrivilegedResponse::ConnectionList(_)));
    });
}

#[test]
fn list_connections_mine_filters_by_owner() {
    with_test_store("list-mine", |store| {
        connection_id(&add_connection(
            store,
            PeerOrigin::Socket(501),
            SAMPLE_CONF,
            false,
            valid_auth(),
        ));
        let conf_other = SAMPLE_CONF.replace("DNS = 1.1.1.1", "DNS = 9.9.9.9");
        connection_id(&add_connection(
            store,
            PeerOrigin::Socket(502),
            &conf_other,
            false,
            valid_auth(),
        ));

        let PrivilegedResponse::ConnectionList(mine) =
            list(store, PeerOrigin::Socket(501), ConnectionScope::Mine)
        else {
            panic!("expected a connection list");
        };
        assert_eq!(mine.len(), 1);
        assert_eq!(mine[0].owner_uid, Some(501));
    });
}

#[test]
fn get_connection_requires_ownership_and_only_then_includes_fingerprint() {
    with_test_store("get-connection", |store| {
        let id = connection_id(&add_connection(
            store,
            PeerOrigin::Socket(501),
            SAMPLE_CONF,
            false,
            valid_auth(),
        ));

        let begun = handle_get_connection(PeerOrigin::Socket(502), id.clone());
        let denied = store.answer(begun);
        assert_eq!(error_code(&denied), "Auth");

        let begun = handle_get_connection(PeerOrigin::Socket(501), id);
        let PrivilegedResponse::Connection(summary) = store.answer(begun) else {
            panic!("expected a connection summary");
        };
        assert!(summary.fingerprint.is_some());
    });
}

#[test]
fn list_connections_never_includes_a_fingerprint() {
    with_test_store("list-no-fingerprint", |store| {
        connection_id(&add_connection(
            store,
            PeerOrigin::Socket(0),
            SAMPLE_CONF,
            true,
            valid_auth(),
        ));
        let PrivilegedResponse::ConnectionList(all) =
            list(store, PeerOrigin::Socket(0), ConnectionScope::Global)
        else {
            panic!("expected a connection list");
        };
        assert_eq!(all.len(), 1);
        assert!(all[0].fingerprint.is_none());
    });
}

#[test]
fn mtu_override_is_baked_into_raw_conf_before_fingerprinting() {
    with_test_store("mtu-override", |store| {
        let response = add_full(
            store,
            PeerOrigin::Socket(0),
            SAMPLE_CONF,
            true,
            ConnectionStartMode::Manual,
            None,
            Some(1280),
            false,
            valid_auth(),
        );
        let id = connection_id(&response);
        let stored = store.load(&id).unwrap();
        assert_eq!(stored.config.mtu, Some(1280));
        assert!(stored.raw_conf.contains("MTU = 1280"));
        // The anti-drift check depends on this agreeing exactly.
        let reparsed = parse(&stored.raw_conf).unwrap();
        assert_eq!(reparsed.fingerprint, stored.fingerprint);
    });
}

#[test]
fn add_connection_rejects_a_name_already_used_by_a_different_connection() {
    with_test_store("add-name-collision", |store| {
        let first = add_full(
            store,
            PeerOrigin::Socket(0),
            SAMPLE_CONF,
            true,
            ConnectionStartMode::Manual,
            Some("direct"),
            None,
            false,
            valid_auth(),
        );
        let first_id = connection_id(&first);

        let second = add_full(
            store,
            PeerOrigin::Socket(0),
            SAMPLE_CONF_EDITED,
            true,
            ConnectionStartMode::Manual,
            Some("direct"),
            None,
            false,
            valid_auth(),
        );
        assert_eq!(error_code(&second), "NameInUse");
        // The rejected call must not have replaced the first record.
        assert!(store.load(&first_id).is_some());
    });
}

#[test]
fn add_connection_with_force_allows_replacing_a_same_named_connection() {
    with_test_store("add-name-force", |store| {
        let first = add_full(
            store,
            PeerOrigin::Socket(0),
            SAMPLE_CONF,
            true,
            ConnectionStartMode::Manual,
            Some("direct"),
            None,
            false,
            valid_auth(),
        );
        let first_id = connection_id(&first);

        let second = add_full(
            store,
            PeerOrigin::Socket(0),
            SAMPLE_CONF_EDITED,
            true,
            ConnectionStartMode::Manual,
            Some("direct"),
            None,
            true,
            valid_auth(),
        );
        let second_id = connection_id(&second);
        assert_ne!(first_id, second_id);
        // `force` only waives the uniqueness check; it's still on the
        // caller to remove `first_id` afterwards.
        assert!(store.load(&first_id).is_some());
    });
}

#[test]
fn apply_mtu_override_inserts_when_absent_and_replaces_when_present() {
    let inserted = apply_mtu_override_to_conf_text(
        "[Interface]\nPrivateKey = a\nAddress = 10.0.0.2/32\n",
        1300,
    );
    assert!(inserted.contains("[Interface]\nMTU = 1300\n"));

    let replaced =
        apply_mtu_override_to_conf_text("[Interface]\nMTU = 1400\nAddress = 10.0.0.2/32\n", 1300);
    assert!(replaced.contains("MTU = 1300"));
    assert!(!replaced.contains("1400"));
}

// ---- further cases ----------------------------------------------------------

#[test]
fn mtu_override_keeps_everything_else() {
    assert_eq!(
        apply_mtu_override_to_conf_text(
            "# home\r\n [INTERFACE] \nmtu=1\n mTu = 2\n[Peer]\nMTU = 3\n",
            65535,
        ),
        "# home\n [INTERFACE] \nMTU = 65535\nMTU = 65535\n[Peer]\nMTU = 3\n"
    );
    // Without an interface section there is no place for it.
    assert_eq!(
        apply_mtu_override_to_conf_text("[Peer]\nA = b", 1280),
        "[Peer]\nA = b\n"
    );
    // Only the first of several sections gets an inserted directive.
    assert_eq!(
        apply_mtu_override_to_conf_text("[Interface]\n[Interface]", 0),
        "[Interface]\nMTU = 0\n[Interface]\n"
    );
    assert_eq!(apply_mtu_override_to_conf_text("", 1280), "");
}

#[test]
fn the_last_mtu_override_wins() {
    for conf in [
        "[Interface]\nMTU = 1\n[Peer]\n",
        "[Interface]\r\nAddress = 10.0.0.2/32\r\n",
        "[Peer]\nMTU = 1\n",
        "",
    ] {
        let once = apply_mtu_override_to_conf_text(conf, 1300);
        let twice = apply_mtu_override_to_conf_text(&once, 1400);
        assert_eq!(twice, apply_mtu_override_to_conf_text(conf, 1400));
    }
    // A carriage return that is left at the end of a line goes with the next override.
    let conf = "[Interface]\nMTU = 1\na\r\r\n";
    let once = apply_mtu_override_to_conf_text(conf, 1300);
    assert_eq!(once, "[Interface]\nMTU = 1300\na\r\n");
    assert_eq!(
        apply_mtu_override_to_conf_text(&once, 1300),
        "[Interface]\nMTU = 1300\na\n"
    );
}

#[test]
fn stdio_callers_add_for_whoever_ran_sudo() {
    for (sudo_uid, owner) in [
        (Some("501"), 501),
        (Some("+7"), 7),
        (Some("4294967295"), u32::MAX),
        (Some("4294967296"), 0),
        (Some(" 501"), 0),
        (Some(""), 0),
        (Some("+"), 0),
        (None, 0),
    ] {
        with_test_store("stdio-owner", |store| {
            let outcome = handle_add_connection(
                PeerOrigin::Stdio,
                SAMPLE_CONF.to_string(),
                false,
                ConnectionStartMode::Manual,
                None,
                None,
                false,
                valid_auth(),
                &sudo_uid.map(|uid| uid.to_string()),
            );
            let id = connection_id(&store.answer(outcome));
            assert_eq!(store.load(&id).unwrap().owner_uid, Some(owner));
        });
    }
    assert_eq!(PeerOrigin::Stdio.uid(), 0);
    assert!(PeerOrigin::Stdio.is_root());
    assert!(!PeerOrigin::Socket(501).is_root());
}

#[test]
fn a_new_record_holds_what_was_asked_for() {
    with_test_store("new-record", |store| {
        let id = connection_id(&add_full(
            store,
            PeerOrigin::Socket(501),
            SAMPLE_CONF,
            false,
            ConnectionStartMode::Automatic,
            Some("home"),
            None,
            false,
            valid_auth(),
        ));
        let stored = store.load(&id).unwrap();
        assert_eq!(stored.raw_conf, SAMPLE_CONF);
        assert_eq!(stored.name.as_deref(), Some("home"));
        assert_eq!(stored.start_mode, ConnectionStartMode::Automatic);
        assert_eq!(stored.owner_uid, Some(501));
        assert_eq!(stored.created_at, stored.updated_at);
        assert!(!stored.global);
        assert!(!stored.user_disconnected);
    });
}

#[test]
fn summaries_show_the_record() {
    with_test_store("summary", |store| {
        let conf = format!("{SAMPLE_CONF}PresharedKey = c2VjcmV0\nMTU = 1400\n");
        let id = connection_id(&add_full(
            store,
            PeerOrigin::Socket(501),
            &conf,
            false,
            ConnectionStartMode::Manual,
            Some("home"),
            None,
            false,
            valid_auth(),
        ));
        store.active.push(id.text.clone());
        let PrivilegedResponse::ConnectionList(mine) =
            list(store, PeerOrigin::Socket(501), ConnectionScope::Mine)
        else {
            panic!("expected a connection list");
        };
        let shown: &ConnectionSummary = &mine[0];
        assert!(shown.connected);
        assert_eq!(shown.id, id);
        assert_eq!(shown.addresses, ["10.0.0.2/32"]);
        assert_eq!(shown.dns_servers, ["1.1.1.1"]);
        assert_eq!(shown.mtu, Some(1400));
        assert_eq!(shown.peers.len(), 1);
        assert!(shown.peers[0].has_preshared_key);
        assert_eq!(
            shown.peers[0].endpoint.as_deref(),
            Some("198.51.100.1:51820")
        );
        assert_eq!(shown.peers[0].allowed_ips, ["0.0.0.0/0"]);
    });
}

#[test]
fn a_locked_connection_is_busy() {
    with_test_store("busy", |store| {
        let id = connection_id(&add_connection(
            store,
            PeerOrigin::Socket(501),
            SAMPLE_CONF,
            false,
            valid_auth(),
        ));
        store.blocked = true;
        let response = set_mode(
            store,
            PeerOrigin::Socket(501),
            &id,
            ConnectionStartMode::Automatic,
            None,
        );
        assert_eq!(error_code(&response), "Busy");
        assert_eq!(
            error_message(&response),
            "another operation on this connection is in progress; retry once it finishes"
        );
    });
}

#[test]
fn errors_keep_their_words() {
    with_test_store("errors", |store| {
        let response = add_connection(
            store,
            PeerOrigin::Socket(501),
            "[Interface]\n",
            false,
            valid_auth(),
        );
        assert_eq!(error_code(&response), "WireGuard");
        assert_eq!(error_message(&response), "no private key");
    });
    assert_eq!(
        AppError::Json("eof".to_string()).message(),
        "JSON error: eof"
    );
    assert_eq!(
        AppError::Io {
            would_block: false,
            message: "disk full".to_string()
        }
        .message(),
        "IO error: disk full"
    );
    assert_eq!(
        AppError::Auth("no".to_string()).message(),
        "Authentication failed: no"
    );
    assert_eq!(
        AppError::AuthRequired("x".to_string()).message(),
        "Admin authentication required: x"
    );
    assert_eq!(
        AppError::WireGuard("down".to_string()).message(),
        "WireGuard error: down"
    );
    assert_eq!(AppError::Busy("busy".to_string()).message(), "busy");
    assert_eq!(AppError::NotFound("gone".to_string()).message(), "gone");
    assert_eq!(AppError::Other("odd".to_string()).message(), "odd");
}

#[test]
fn failures_of_the_store_are_answered_by_their_kind() {
    use_failure(AppError::Auth("who are you".to_string()), "Auth", "who are you");
    use_failure(AppError::WireGuard("broken".to_string()), "WireGuard", "broken");
    use_failure(
        AppError::NotFound("nothing here".to_string()),
        "Other",
        "nothing here",
    );
    use_failure(
        AppError::Io {
            would_block: false,
            message: "disk full".to_string(),
        },
        "Other",
        "IO error: disk full",
    );
}

/// A request whose first read of the store fails.
fn use_failure(error: AppError, code: &str, message: &str) {
    let begun = handle_get_connection(PeerOrigin::Socket(0), unknown_id());
    let DispatchOutcome::Ask { state, call: _ } = begun else {
        panic!("expected a call");
    };
    let DispatchOutcome::Immediate(response) = resume(state, StoreReply::Record(Err(error))) else {
        panic!("expected an answer");
    };
    assert_eq!(error_code(&response), code);
    assert_eq!(error_message(&response), message);
}

#[test]
fn interface_questions_are_answered() {
    let ask = |request: PrivilegedRequest| -> DispatchOutcome {
        let mut control_state = ControlState::new(false);
        let begun = dispatch(
            request,
            &mut control_state,
            PeerOrigin::Socket(501),
            &None,
            &Vec::new(),
        );
        let DispatchOutcome::Ask { state, call: _ } = begun else {
            panic!("expected a call");
        };
        resume(state, StoreReply::Record(Ok(None)))
    };
    let overview = |reply: StoreReply| -> PrivilegedResponse {
        let DispatchOutcome::Ask { state, call: _ } = ask(PrivilegedRequest::NetworkOverview {
            interface: "wgconf0".to_string(),
        }) else {
            panic!("expected a call");
        };
        let DispatchOutcome::Immediate(response) = resume(state, reply) else {
            panic!("expected an answer");
        };
        response
    };
    assert!(matches!(
        overview(StoreReply::Overview(Ok(None))),
        PrivilegedResponse::Text(text) if text.is_empty()
    ));
    assert!(matches!(
        overview(StoreReply::Overview(Ok(Some("routes".to_string())))),
        PrivilegedResponse::Text(text) if text == "routes"
    ));
    let failed = overview(StoreReply::Overview(Err(AppError::Other("odd".to_string()))));
    assert_eq!(error_code(&failed), "Kernel");

    let DispatchOutcome::Ask { state: _, call } = ask(PrivilegedRequest::InterfaceActive {
        interface: "/elsewhere/wg0".to_string(),
    }) else {
        panic!("expected a call");
    };
    // An absolute name is a path of its own.
    assert!(matches!(
        call,
        StoreCall::SocketExists { path } if path == "/elsewhere/wg0.sock"
    ));
}

#[test]
fn leases_keep_the_daemon_alive() {
    let origin = PeerOrigin::Socket(501);
    let none: Vec<String> = Vec::new();
    let send = |state: &mut ControlState, request: PrivilegedRequest, stale: &Vec<String>| {
        match dispatch(request, state, origin, &None, stale) {
            DispatchOutcome::Immediate(response) => response,
            other => panic!("expected an answer, got {other:?}"),
        }
    };
    let mut state = ControlState::new(true);
    for token in ["a", "b", "a"] {
        send(
            &mut state,
            PrivilegedRequest::LeaseAcquire {
                token: token.to_string(),
            },
            &none,
        );
    }
    assert_eq!(state.leases.len(), 2);
    assert!(matches!(
        send(&mut state, PrivilegedRequest::ShutdownIfIdle, &none),
        PrivilegedResponse::Bool(false)
    ));
    assert!(state.shutdown_requested);
    send(
        &mut state,
        PrivilegedRequest::LeaseRelease {
            token: "a".to_string(),
        },
        &none,
    );
    assert_eq!(state.leases, ["b"]);
    // A lease whose holder is gone does not count.
    assert!(matches!(
        send(
            &mut state,
            PrivilegedRequest::ShutdownIfIdle,
            &vec!["b".to_string()]
        ),
        PrivilegedResponse::Bool(true)
    ));

    let mut state = ControlState::new(false);
    let refused = send(&mut state, PrivilegedRequest::ShutdownIfIdle, &none);
    assert_eq!(error_code(&refused), "Control");
    assert_eq!(
        error_message(&refused),
        "shutdown control is disabled for this daemon instance"
    );
    assert!(!state.shutdown_requested);
}

#[test]
fn removing_by_dispatch_asks_for_credentials_last() {
    with_test_store("remove-order", |store| {
        let id = connection_id(&add_connection(
            store,
            PeerOrigin::Socket(501),
            SAMPLE_CONF,
            false,
            valid_auth(),
        ));
        store.calls.clear();
        let mut control_state = ControlState::new(false);
        let begun = dispatch(
            PrivilegedRequest::RemoveConnection {
                id,
                auth_external_form: valid_auth(),
            },
            &mut control_state,
            PeerOrigin::Socket(501),
            &None,
            &Vec::new(),
        );
        assert!(matches!(store.answer(begun), PrivilegedResponse::Unit));
        let kinds: Vec<&str> = store
            .calls
            .iter()
            .map(|call| call.split(' ').next().unwrap())
            .collect();
        assert_eq!(
            kinds,
            [
                "LockIndex",
                "Load",
                "LockConnection",
                "IsActive",
                "VerifyAdmin",
                "Remove"
            ]
        );
    });
}

#[test]
fn admin_credentials_are_named_with_their_cause() {
    with_test_store("causes", |store| {
        let refused = add_connection(store, PeerOrigin::Socket(501), SAMPLE_CONF, false, None);
        assert_eq!(
            error_message(&refused),
            "admin authentication required: storing a new or changed connection configuration that may contain hooks executed as root"
        );
        let id = connection_id(&add_connection(
            store,
            PeerOrigin::Socket(0),
            SAMPLE_CONF,
            true,
            valid_auth(),
        ));
        let refused = set_mode(
            store,
            PeerOrigin::Socket(0),
            &id,
            ConnectionStartMode::Automatic,
            None,
        );
        assert_eq!(
            error_message(&refused),
            "admin authentication required: enabling automatic startup of a global connection and its hooks as root at every boot"
        );
        let refused = remove(store, PeerOrigin::Socket(0), &id, None);
        assert_eq!(
            error_message(&refused),
            "admin authentication required: removing a stored connection configuration from the privileged connection store"
        );
    });
}
