//! Tests for the credential generator against the real nostr crate.

use nwc_service::customer_nwc::CustomerNwcResponse;

const RELAY: &str = "wss://relay.example.com";

#[test]
fn generate_produces_distinct_nonempty_keys() {
    let frag = CustomerNwcResponse::generate(&RELAY.to_string())
        .expect("generation must succeed for a valid relay");
    assert_eq!(frag.server_key.len(), 64);
    assert_eq!(frag.user_key.len(), 64);
    assert_ne!(frag.server_key, frag.user_key);
}

#[test]
fn generate_uri_carries_relay_and_server_public_key() {
    let frag = CustomerNwcResponse::generate(&RELAY.to_string())
        .expect("generation must succeed for a valid relay");
    assert!(frag.uri.starts_with("nostr+walletconnect://"));
    // The relay's host survives the URI's percent-encoding.
    assert!(frag.uri.contains("relay.example.com"));
    // The URI's authority is the server's public key, derived from the
    // returned server secret key.
    let keys = nostr::key::Keys::parse(&frag.server_key)
        .expect("the returned server key must be a valid secret key");
    let public_hex = keys.public_key().to_hex();
    assert!(frag.uri.contains(&public_hex));
    // The user secret key rides along as the URI's secret.
    assert!(frag.uri.contains(&format!("secret={}", frag.user_key)));
    // The server secret key itself is never in the URI.
    assert!(!frag.uri.contains(&frag.server_key));
}

#[test]
fn generate_twice_differs() {
    let a = CustomerNwcResponse::generate(&RELAY.to_string()).expect("generation must succeed");
    let b = CustomerNwcResponse::generate(&RELAY.to_string()).expect("generation must succeed");
    assert_ne!(a.server_key, b.server_key);
    assert_ne!(a.user_key, b.user_key);
    assert_ne!(a.uri, b.uri);
}

#[test]
fn generate_rejects_unusable_relay() {
    assert!(CustomerNwcResponse::generate(&"not a relay url".to_string()).is_none());
}
