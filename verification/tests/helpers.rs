//! Tests for the error taxonomy, the failure classification, the cache
//! key, the response envelope, the request shapes and the configuration.

use nwc_service::cache::cache_key;
use nwc_service::errors::{
    classify_create_failure, classify_lookup_failure, create_error, lookup_error,
    str_contains_word, NwcError, StoreError,
};
use nwc_service::settings::ServiceConfig;
use nwc_service::views::{
    error_response_data, success_response_data, DeleteNwcRequest, NewNwcRequest,
};

#[test]
fn cache_key_appends_suffix() {
    assert_eq!(cache_key(&"abc".to_string()), "abc:nwc");
    assert_eq!(cache_key(&"".to_string()), ":nwc");
}

#[test]
fn contains_word_finds_substrings() {
    assert!(str_contains_word(
        "duplicate key value violates unique constraint",
        "duplicate"
    ));
    assert!(str_contains_word("duplicate", "duplicate"));
    assert!(str_contains_word("xduplicatex", "duplicate"));
    assert!(!str_contains_word("duplicat", "duplicate"));
    assert!(!str_contains_word("connection refused", "duplicate"));
    assert!(str_contains_word("anything", ""));
    assert!(!str_contains_word("", "duplicate"));
}

#[test]
fn create_failure_classification() {
    // A missing-row report during create is a backend failure: an insert
    // owes the caller a row.
    assert_eq!(
        classify_create_failure(true, false, ""),
        NwcError::StoreError
    );
    assert_eq!(
        classify_create_failure(false, true, "ERROR: duplicate key value violates unique constraint"),
        NwcError::DuplicateEntry
    );
    assert_eq!(
        classify_create_failure(false, true, "connection refused"),
        NwcError::StoreError
    );
    // A non-database failure is a store error even if its text mentions
    // the word.
    assert_eq!(
        classify_create_failure(false, false, "duplicate"),
        NwcError::StoreError
    );
}

#[test]
fn lookup_failure_classification() {
    assert_eq!(classify_lookup_failure(true), NwcError::NotFound);
    assert_eq!(classify_lookup_failure(false), NwcError::StoreError);
}

#[test]
fn store_error_mapping() {
    assert_eq!(create_error(StoreError::RowNotFound), NwcError::StoreError);
    assert_eq!(create_error(StoreError::Duplicate), NwcError::DuplicateEntry);
    assert_eq!(create_error(StoreError::Database), NwcError::StoreError);
    assert_eq!(lookup_error(StoreError::RowNotFound), NwcError::NotFound);
    assert_eq!(lookup_error(StoreError::Duplicate), NwcError::StoreError);
    assert_eq!(lookup_error(StoreError::Database), NwcError::StoreError);
}

#[test]
fn error_messages_and_status_codes() {
    assert_eq!(NwcError::NotFound.message(), "nwc not found");
    assert_eq!(NwcError::DuplicateEntry.message(), "duplicate entry");
    assert_eq!(NwcError::StoreError.message(), "database error");
    assert_eq!(NwcError::CacheError.message(), "cache error");
    assert_eq!(NwcError::NotFound.status_code(), 404);
    assert_eq!(NwcError::DuplicateEntry.status_code(), 400);
    assert_eq!(NwcError::StoreError.status_code(), 500);
    assert_eq!(NwcError::CacheError.status_code(), 500);
}

#[test]
fn response_envelopes() {
    let failure = error_response_data("duplicate entry");
    assert!(!failure.success);
    assert_eq!(failure.error, "duplicate entry");
    assert_eq!(failure.message, "");
    assert!(failure.data.is_empty());

    let payload = vec!["a".to_string(), "b".to_string()];
    let success = success_response_data(payload.clone());
    assert!(success.success);
    assert_eq!(success.error, "");
    assert_eq!(success.message, "");
    assert_eq!(success.data, payload);
}

#[test]
fn service_config_holds_fields() {
    let cfg = ServiceConfig::new(
        "localhost".to_string(),
        "nwc".to_string(),
        "postgres".to_string(),
        "example-password".to_string(),
        5432,
        "postgres://localhost/nwc".to_string(),
        "redis://localhost".to_string(),
    );
    assert_eq!(cfg.db_host, "localhost");
    assert_eq!(cfg.db_name, "nwc");
    assert_eq!(cfg.db_user, "postgres");
    assert_eq!(cfg.db_password, "example-password");
    assert_eq!(cfg.db_port, 5432);
    assert_eq!(cfg.db_url, "postgres://localhost/nwc");
    assert_eq!(cfg.redis_url, "redis://localhost");
    let copy = cfg.clone();
    assert_eq!(copy, cfg);
}

#[test]
fn request_shapes() {
    let create = NewNwcRequest {
        uuid: "abc".to_string(),
        app_service: "wallet-1".to_string(),
        budget: 1000,
    };
    assert_eq!(create.clone(), create);

    let delete = DeleteNwcRequest {
        uuid: "abc".to_string(),
        app_service: "wallet-1".to_string(),
    };
    assert_eq!(delete.clone(), delete);

    let empty = DeleteNwcRequest::default();
    assert_eq!(empty.uuid, "");
    assert_eq!(empty.app_service, "");
}
