//! The credential generator: fresh server and user key pairs and the
//! wallet-connect connection URI, produced by the nostr crate behind
//! trusted wrappers.
//!
//! Key generation draws from a cryptographically secure source, so nothing
//! can be promised about which keys come back; the URI, by contrast, is a
//! deterministic rendering of the server public key, the relay address and
//! the user secret key, and carries that name in the contracts.  Which
//! strings nostr accepts as a key or as a relay address is likewise
//! deterministic and carries a named acceptance predicate, so the
//! generator can promise success exactly when the relay address is
//! accepted.

use vstd::prelude::*;

use crate::customer_nwc::CustomerNwcResponse;

verus! {

/// The hex form of the public key nostr derives for the secret key with
/// the given hex form.
pub uninterp spec fn spec_public_key_hex(secret_hex: Seq<char>) -> Seq<char>;

/// Does nostr's `SecretKey::from_hex` accept the string?  Acceptance is a
/// function of the string alone.
pub uninterp spec fn spec_valid_secret_hex(secret_hex: Seq<char>) -> bool;

/// Does nostr's `PublicKey::from_hex` accept the string?  Acceptance is a
/// function of the string alone.
pub uninterp spec fn spec_valid_public_hex(public_hex: Seq<char>) -> bool;

/// Does nostr's `RelayUrl::parse` accept the string?  Acceptance is a
/// function of the string alone.
pub uninterp spec fn spec_relay_accepted(relay: Seq<char>) -> bool;

/// The wallet-connect URI nostr renders for a server public key, a relay
/// address and a user secret key.
pub uninterp spec fn spec_nwc_uri(
    server_public_hex: Seq<char>,
    relay: Seq<char>,
    user_secret_hex: Seq<char>,
) -> Seq<char>;

/// Relies on nostr's `Keys::generate`, `SecretKey::to_secret_hex` and
/// `PublicKey::to_hex`: a fresh random secp256k1 key pair, both halves
/// rendered as 64-digit hex strings, with the public half derived from the
/// secret half alone.  The rendered halves parse back: `SecretKey::from_hex`
/// accepts the hex of any generated secret key, and `PublicKey::from_hex`
/// accepts any 64-digit hex string.
#[verifier::external_body]
fn generate_key_hex() -> (r: (String, String))
    ensures
        r.0@.len() == 64,
        r.1@.len() == 64,
        r.1@ == spec_public_key_hex(r.0@),
        spec_valid_secret_hex(r.0@),
        spec_valid_public_hex(r.1@),
{
    let keys = nostr::key::Keys::generate();
    let secret = keys.secret_key().to_secret_hex();
    let public = keys.public_key().to_hex();
    (secret, public)
}

/// Relies on nostr's `NostrWalletConnectUri` and its `Display`: the URI is
/// a function of the server public key, the relay address and the user
/// secret key alone, and it is rendered exactly when `PublicKey::from_hex`,
/// `SecretKey::from_hex` and `RelayUrl::parse` all accept their strings.
#[verifier::external_body]
fn build_nwc_uri(server_public_hex: &String, relay: &String, user_secret_hex: &String) -> (r:
    Option<String>)
    ensures
        r is Some <==> (spec_valid_public_hex(server_public_hex@)
            && spec_valid_secret_hex(user_secret_hex@) && spec_relay_accepted(relay@)),
        r matches Some(u) ==> u@ == spec_nwc_uri(server_public_hex@, relay@, user_secret_hex@),
{
    let public_key = nostr::key::PublicKey::from_hex(server_public_hex.as_str());
    let secret_key = nostr::key::SecretKey::from_hex(user_secret_hex.as_str());
    let relay_url = nostr::types::RelayUrl::parse(relay.as_str());
    match (public_key, secret_key, relay_url) {
        (Ok(p), Ok(s), Ok(r)) => Some(
            nostr::nips::nip47::NostrWalletConnectUri::new(p, vec![r], s, None).to_string(),
        ),
        _ => None,
    }
}

impl CustomerNwcResponse {
    /// Generates a fresh credential fragment: two independent key pairs
    /// and the connection URI built from the server public key, the relay
    /// address and the user secret key.
    ///
    /// Succeeds exactly when nostr accepts the relay address; `None`
    /// reports an unusable one, a fatal configuration error rather than a
    /// per-request error.  The keys themselves are generated infallibly,
    /// and both returned keys are hex encodings nostr accepts as secret
    /// keys.
    pub fn generate(relay: &String) -> (r: Option<CustomerNwcResponse>)
        ensures
            r is Some <==> spec_relay_accepted(relay@),
            r matches Some(c) ==> {
                &&& c.server_key@.len() == 64
                &&& c.user_key@.len() == 64
                &&& spec_valid_secret_hex(c.server_key@)
                &&& spec_valid_secret_hex(c.user_key@)
                &&& c.uri@ == spec_nwc_uri(spec_public_key_hex(c.server_key@), relay@, c.user_key@)
            },
    {
        let (server_secret, server_public) = generate_key_hex();
        let (user_secret, _user_public) = generate_key_hex();
        match build_nwc_uri(&server_public, relay, &user_secret) {
            Some(uri) => Some(
                CustomerNwcResponse { server_key: server_secret, user_key: user_secret, uri },
            ),
            None => None,
        }
    }
}

} // verus!
