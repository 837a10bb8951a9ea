//! The credential record and its mathematical view.
//!
//! A `CustomerNwc` is the persisted tuple: a store-assigned identifier, the
//! customer identifier, the two secret keys, the connection URI, the
//! application-service identifier that scopes the record, and the spending
//! budget (stored verbatim).  The pair (customer identifier,
//! application-service identifier) is the record's natural key.

use vstd::prelude::*;

verus! {

/// A persisted credential record.
#[derive(Debug, PartialEq, Eq)]
pub struct CustomerNwc {
    /// Identifier assigned by the store on creation; absent before
    /// persistence.
    pub id: Option<i32>,
    /// Opaque customer identifier, stable per customer.
    pub uuid: String,
    /// Server secret key, hex-encoded.
    pub server_key: String,
    /// User secret key, hex-encoded.
    pub user_key: String,
    /// Connection URI binding the relay, the user key and the server public
    /// key.
    pub uri: String,
    /// Application-service identifier that scopes the record.
    pub app_service: String,
    /// Spending allowance, stored verbatim.
    pub budget: i64,
}

/// Mathematical view of a credential record.
pub ghost struct NwcView {
    pub id: Option<int>,
    pub uuid: Seq<char>,
    pub server_key: Seq<char>,
    pub user_key: Seq<char>,
    pub uri: Seq<char>,
    pub app_service: Seq<char>,
    pub budget: int,
}

impl View for CustomerNwc {
    type V = NwcView;

    open spec fn view(&self) -> NwcView {
        NwcView {
            id: match self.id {
                Some(i) => Some(i as int),
                None => None,
            },
            uuid: self.uuid@,
            server_key: self.server_key@,
            user_key: self.user_key@,
            uri: self.uri@,
            app_service: self.app_service@,
            budget: self.budget as int,
        }
    }
}

impl DeepView for CustomerNwc {
    type V = NwcView;

    open spec fn deep_view(&self) -> NwcView {
        self.view()
    }
}

impl Clone for CustomerNwc {
    fn clone(&self) -> (r: Self)
        ensures
            r == *self,
    {
        CustomerNwc {
            id: self.id,
            uuid: self.uuid.clone(),
            server_key: self.server_key.clone(),
            user_key: self.user_key.clone(),
            uri: self.uri.clone(),
            app_service: self.app_service.clone(),
            budget: self.budget,
        }
    }
}

/// Does the record carry the given natural key?
pub open spec fn nk_matches(r: NwcView, uuid: Seq<char>, app_service: Seq<char>) -> bool {
    r.uuid == uuid && r.app_service == app_service
}

/// No two records share a natural key.
pub open spec fn unique_natural_keys(rows: Seq<NwcView>) -> bool {
    forall|i: int, j: int|
        0 <= i < j < rows.len() ==> !nk_matches(#[trigger] rows[j], #[trigger] rows[i].uuid, rows[i].app_service)
}

/// A freshly generated credential fragment: the two secret keys and the
/// connection URI.  This is the only value on which plaintext secrets are
/// handed back to the caller.
#[derive(Debug, PartialEq, Eq)]
pub struct CustomerNwcResponse {
    /// Server secret key, hex-encoded.
    pub server_key: String,
    /// User secret key, hex-encoded.
    pub user_key: String,
    /// Connection URI for the relay.
    pub uri: String,
}

/// Mathematical view of a generated credential fragment.
pub ghost struct ResponseView {
    pub server_key: Seq<char>,
    pub user_key: Seq<char>,
    pub uri: Seq<char>,
}

impl View for CustomerNwcResponse {
    type V = ResponseView;

    open spec fn view(&self) -> ResponseView {
        ResponseView {
            server_key: self.server_key@,
            user_key: self.user_key@,
            uri: self.uri@,
        }
    }
}

impl Clone for CustomerNwcResponse {
    fn clone(&self) -> (r: Self)
        ensures
            r == *self,
    {
        CustomerNwcResponse {
            server_key: self.server_key.clone(),
            user_key: self.user_key.clone(),
            uri: self.uri.clone(),
        }
    }
}

} // verus!
