//! Scenario tests for the credential service: the create/read/update/delete
//! paths and the cache-consistency policy between the store and the mirror.

use nwc_service::customer_nwc::{CustomerNwc, CustomerNwcResponse};
use nwc_service::errors::NwcError;
use nwc_service::service::{
    cache_entry_after_create, cache_refresh_plan, CacheRefresh, CredentialService,
};
use nwc_service::views::NewNwcRequest;

fn request(uuid: &str, app_service: &str, budget: i64) -> NewNwcRequest {
    NewNwcRequest {
        uuid: uuid.to_string(),
        app_service: app_service.to_string(),
        budget,
    }
}

fn fragment(tag: &str) -> CustomerNwcResponse {
    CustomerNwcResponse {
        server_key: format!("server-key-{tag}"),
        user_key: format!("user-key-{tag}"),
        uri: format!("nostr+walletconnect://{tag}"),
    }
}

#[test]
fn create_returns_persisted_row() {
    let mut svc = CredentialService::new();
    let rec = svc
        .create(&request("abc", "wallet-1", 1000), &fragment("a"))
        .expect("create must succeed on a fresh service");
    assert_eq!(rec.id, Some(1));
    assert_eq!(rec.uuid, "abc");
    assert_eq!(rec.app_service, "wallet-1");
    assert_eq!(rec.budget, 1000);
    assert_eq!(rec.server_key, "server-key-a");
    assert_eq!(rec.user_key, "user-key-a");
    assert_eq!(rec.uri, "nostr+walletconnect://a");
}

#[test]
fn create_persists_row_in_store() {
    // The record must exist durably: read it back through the store alone,
    // with the cache made unreachable so the mirror cannot answer.
    let mut svc = CredentialService::new();
    svc.create(&request("abc", "wallet-1", 1000), &fragment("a"))
        .expect("create must succeed");
    svc.cache.set_available(false);
    let rows = svc
        .store
        .get_by_customer(&"abc".to_string())
        .expect("store must be reachable");
    assert_eq!(rows.len(), 1);
    assert_eq!(rows[0].uuid, "abc");
    assert_eq!(rows[0].app_service, "wallet-1");
    assert_eq!(rows[0].budget, 1000);
    assert_eq!(rows[0].server_key, "server-key-a");
}

#[test]
fn read_unknown_customer_not_found() {
    let mut svc = CredentialService::new();
    let r = svc.read(&"unknown-customer".to_string());
    assert_eq!(r.unwrap_err(), NwcError::NotFound);
}

#[test]
fn create_duplicate_natural_key_rejected() {
    let mut svc = CredentialService::new();
    svc.create(&request("abc", "wallet-1", 1000), &fragment("a"))
        .expect("first create must succeed");
    let err = svc
        .create(&request("abc", "wallet-1", 2000), &fragment("b"))
        .unwrap_err();
    assert_eq!(err, NwcError::DuplicateEntry);
    // The row created first is unchanged.
    let rows = svc.read(&"abc".to_string()).expect("read must succeed");
    assert_eq!(rows.len(), 1);
    assert_eq!(rows[0].budget, 1000);
    assert_eq!(rows[0].server_key, "server-key-a");
}

#[test]
fn same_customer_two_services_allowed() {
    let mut svc = CredentialService::new();
    svc.create(&request("abc", "wallet-1", 1000), &fragment("a"))
        .expect("first create must succeed");
    svc.create(&request("abc", "wallet-2", 500), &fragment("b"))
        .expect("same customer under another service must succeed");
    let rows = svc.read(&"abc".to_string()).expect("read must succeed");
    assert_eq!(rows.len(), 2);
    assert_eq!(rows[0].app_service, "wallet-1");
    assert_eq!(rows[1].app_service, "wallet-2");
}

#[test]
fn read_twice_is_idempotent() {
    let mut svc = CredentialService::new();
    svc.create(&request("abc", "wallet-1", 1000), &fragment("a"))
        .expect("create must succeed");
    svc.create(&request("abc", "wallet-2", 2000), &fragment("b"))
        .expect("create must succeed");
    let first = svc.read(&"abc".to_string()).expect("read must succeed");
    let second = svc.read(&"abc".to_string()).expect("read must succeed");
    assert_eq!(first, second);
}

#[test]
fn read_twice_is_idempotent_after_cache_miss() {
    // Seed the store, drop the mirror entry, and read twice: the first
    // read repopulates the mirror and the second answers the same from it.
    let mut svc = CredentialService::new();
    svc.create(&request("abc", "wallet-1", 1000), &fragment("a"))
        .expect("create must succeed");
    svc.cache
        .remove(&"abc".to_string())
        .expect("cache must accept the removal");
    let first = svc.read(&"abc".to_string()).expect("read must succeed");
    let second = svc.read(&"abc".to_string()).expect("read must succeed");
    assert_eq!(first, second);
    assert_eq!(first.len(), 1);
}

#[test]
fn read_after_create_survives_store_outage() {
    // Cache-population law: after a create, the mirror alone can answer.
    let mut svc = CredentialService::new();
    let rec = svc
        .create(&request("abc", "wallet-1", 1000), &fragment("a"))
        .expect("create must succeed");
    svc.store.set_available(false);
    let rows = svc
        .read(&"abc".to_string())
        .expect("read must be served from the cache");
    assert!(rows.contains(&rec));
}

#[test]
fn read_falls_back_to_store_when_cache_down() {
    let mut svc = CredentialService::new();
    svc.create(&request("abc", "wallet-1", 1000), &fragment("a"))
        .expect("create must succeed");
    svc.cache.set_available(false);
    let rows = svc
        .read(&"abc".to_string())
        .expect("read must fall back to the store");
    assert_eq!(rows.len(), 1);
    assert_eq!(rows[0].server_key, "server-key-a");
}

#[test]
fn create_succeeds_when_cache_down() {
    // A refused cache write is non-fatal: the store write decides.
    let mut svc = CredentialService::new();
    svc.cache.set_available(false);
    let rec = svc
        .create(&request("abc", "wallet-1", 1000), &fragment("a"))
        .expect("create must succeed on the store write alone");
    assert_eq!(rec.id, Some(1));
}

#[test]
fn update_reflected_by_read() {
    // Self-healing law: after an update, a read serves the updated fields,
    // never stale cached values.
    let mut svc = CredentialService::new();
    svc.create(&request("abc", "wallet-1", 1000), &fragment("a"))
        .expect("create must succeed");
    // Populate the mirror with the pre-update row.
    svc.read(&"abc".to_string()).expect("read must succeed");
    let updated = CustomerNwc {
        id: None,
        uuid: "abc".to_string(),
        server_key: "rotated-server-key".to_string(),
        user_key: "rotated-user-key".to_string(),
        uri: "nostr+walletconnect://rotated".to_string(),
        app_service: "wallet-1".to_string(),
        budget: 250,
    };
    let echoed = svc.update(&updated).expect("update must succeed");
    assert_eq!(echoed, updated);
    let rows = svc.read(&"abc".to_string()).expect("read must succeed");
    assert_eq!(rows.len(), 1);
    assert_eq!(rows[0].server_key, "rotated-server-key");
    assert_eq!(rows[0].user_key, "rotated-user-key");
    assert_eq!(rows[0].budget, 250);
    // The stored row keeps its identifier.
    assert_eq!(rows[0].id, Some(1));
}

#[test]
fn update_missing_row_not_found() {
    let mut svc = CredentialService::new();
    let absent_row = CustomerNwc {
        id: None,
        uuid: "nobody".to_string(),
        server_key: "k".to_string(),
        user_key: "k".to_string(),
        uri: "u".to_string(),
        app_service: "wallet-1".to_string(),
        budget: 0,
    };
    assert_eq!(svc.update(&absent_row).unwrap_err(), NwcError::NotFound);
}

#[test]
fn delete_then_read_not_found() {
    // Deletion law: after a delete, the record is gone from store and
    // mirror alike.
    let mut svc = CredentialService::new();
    svc.create(&request("abc", "wallet-1", 1000), &fragment("a"))
        .expect("create must succeed");
    svc.read(&"abc".to_string()).expect("read must succeed");
    svc.delete(&"abc".to_string(), &"wallet-1".to_string())
        .expect("delete must succeed");
    let r = svc.read(&"abc".to_string());
    assert_eq!(r.unwrap_err(), NwcError::NotFound);
}

#[test]
fn delete_keeps_other_services_of_customer() {
    let mut svc = CredentialService::new();
    svc.create(&request("abc", "wallet-1", 1000), &fragment("a"))
        .expect("create must succeed");
    svc.create(&request("abc", "wallet-2", 2000), &fragment("b"))
        .expect("create must succeed");
    svc.delete(&"abc".to_string(), &"wallet-1".to_string())
        .expect("delete must succeed");
    let rows = svc.read(&"abc".to_string()).expect("read must succeed");
    assert_eq!(rows.len(), 1);
    assert_eq!(rows[0].app_service, "wallet-2");
}

#[test]
fn delete_missing_row_not_found() {
    let mut svc = CredentialService::new();
    let r = svc.delete(&"abc".to_string(), &"wallet-1".to_string());
    assert_eq!(r.unwrap_err(), NwcError::NotFound);
}

#[test]
fn store_outage_surfaces_as_store_error() {
    let mut svc = CredentialService::new();
    svc.store.set_available(false);
    let create_err = svc
        .create(&request("abc", "wallet-1", 1000), &fragment("a"))
        .unwrap_err();
    assert_eq!(create_err, NwcError::StoreError);
    let read_err = svc.read(&"abc".to_string()).unwrap_err();
    assert_eq!(read_err, NwcError::StoreError);
    let delete_err = svc
        .delete(&"abc".to_string(), &"wallet-1".to_string())
        .unwrap_err();
    assert_eq!(delete_err, NwcError::StoreError);
}

#[test]
fn cache_refuses_writes_when_down() {
    let mut svc = CredentialService::new();
    let row = svc
        .create(&request("abc", "wallet-1", 1000), &fragment("a"))
        .expect("create must succeed");
    svc.cache.set_available(false);
    let err = svc.cache.put(&"abc".to_string(), vec![row]).unwrap_err();
    assert_eq!(err, NwcError::CacheError);
    let err = svc.cache.remove(&"abc".to_string()).unwrap_err();
    assert_eq!(err, NwcError::CacheError);
    assert!(svc.cache.get(&"abc".to_string()).is_none());
}

#[test]
fn cache_entry_after_create_appends_or_seeds() {
    let first = CustomerNwc {
        id: Some(1),
        uuid: "abc".to_string(),
        server_key: "k1".to_string(),
        user_key: "u1".to_string(),
        uri: "uri-1".to_string(),
        app_service: "wallet-1".to_string(),
        budget: 1,
    };
    let second = CustomerNwc {
        id: Some(2),
        app_service: "wallet-2".to_string(),
        ..first.clone()
    };
    let seeded = cache_entry_after_create(None, first.clone());
    assert_eq!(seeded, vec![first.clone()]);
    let appended = cache_entry_after_create(Some(seeded), second.clone());
    assert_eq!(appended, vec![first, second]);
}

#[test]
fn cache_refresh_plan_drops_or_writes() {
    assert!(matches!(
        cache_refresh_plan(Vec::new()),
        CacheRefresh::DropEntry
    ));
    let row = CustomerNwc {
        id: Some(1),
        uuid: "abc".to_string(),
        server_key: "k".to_string(),
        user_key: "u".to_string(),
        uri: "uri".to_string(),
        app_service: "wallet-1".to_string(),
        budget: 1,
    };
    match cache_refresh_plan(vec![row.clone()]) {
        CacheRefresh::WriteEntry(records) => assert_eq!(records, vec![row]),
        CacheRefresh::DropEntry => panic!("a non-empty row set must be written back"),
    }
}

#[test]
fn budget_stored_verbatim_at_extremes() {
    let mut svc = CredentialService::new();
    let max = svc
        .create(&request("abc", "wallet-max", i64::MAX), &fragment("a"))
        .expect("create must succeed");
    assert_eq!(max.budget, i64::MAX);
    let min = svc
        .create(&request("abc", "wallet-min", i64::MIN), &fragment("b"))
        .expect("create must succeed");
    assert_eq!(min.budget, i64::MIN);
    let rows = svc.read(&"abc".to_string()).expect("read must succeed");
    assert_eq!(rows[0].budget, i64::MAX);
    assert_eq!(rows[1].budget, i64::MIN);
}

#[test]
fn identifiers_are_assigned_in_order() {
    let mut svc = CredentialService::new();
    let first = svc
        .create(&request("a", "s", 1), &fragment("a"))
        .expect("create must succeed");
    let second = svc
        .create(&request("b", "s", 2), &fragment("b"))
        .expect("create must succeed");
    assert_eq!(first.id, Some(1));
    assert_eq!(second.id, Some(2));
}
