//! Inbound request shapes and the stable response envelope.
//!
//! The envelope is the one discriminated result shape every operation
//! answers with: a success flag, a message, an error string and a data
//! list.  The transport layer serializes it; this module fixes what each
//! field holds.

use vstd::prelude::*;

verus! {

/// A request to create a credential record.
#[derive(Debug, PartialEq, Eq)]
pub struct NewNwcRequest {
    /// Customer identifier the record is created for.
    pub uuid: String,
    /// Application-service identifier scoping the record.
    pub app_service: String,
    /// Spending allowance, stored verbatim.
    pub budget: i64,
}

/// Mathematical view of a create request.
pub ghost struct NewNwcRequestView {
    pub uuid: Seq<char>,
    pub app_service: Seq<char>,
    pub budget: int,
}

impl View for NewNwcRequest {
    type V = NewNwcRequestView;

    open spec fn view(&self) -> NewNwcRequestView {
        NewNwcRequestView {
            uuid: self.uuid@,
            app_service: self.app_service@,
            budget: self.budget as int,
        }
    }
}

impl Clone for NewNwcRequest {
    fn clone(&self) -> (r: Self)
        ensures
            r == *self,
    {
        NewNwcRequest {
            uuid: self.uuid.clone(),
            app_service: self.app_service.clone(),
            budget: self.budget,
        }
    }
}

/// A request to delete a credential record by its natural key.
#[derive(Debug, PartialEq, Eq)]
pub struct DeleteNwcRequest {
    /// Customer identifier owning the record.
    pub uuid: String,
    /// Application-service identifier scoping the record.
    pub app_service: String,
}

/// Mathematical view of a delete request.
pub ghost struct DeleteNwcRequestView {
    pub uuid: Seq<char>,
    pub app_service: Seq<char>,
}

impl View for DeleteNwcRequest {
    type V = DeleteNwcRequestView;

    open spec fn view(&self) -> DeleteNwcRequestView {
        DeleteNwcRequestView { uuid: self.uuid@, app_service: self.app_service@ }
    }
}

impl Clone for DeleteNwcRequest {
    fn clone(&self) -> (r: Self)
        ensures
            r == *self,
    {
        DeleteNwcRequest { uuid: self.uuid.clone(), app_service: self.app_service.clone() }
    }
}

impl Default for DeleteNwcRequest {
    /// The empty delete request: both identifiers blank.
    fn default() -> (r: Self)
        ensures
            r.uuid@ == Seq::<char>::empty(),
            r.app_service@ == Seq::<char>::empty(),
    {
        DeleteNwcRequest { uuid: String::new(), app_service: String::new() }
    }
}

/// The stable response envelope: either a success carrying data, or a
/// failure carrying an error message.
#[derive(Debug, PartialEq, Eq)]
pub struct ResponseData<T> {
    /// Whether the operation succeeded.
    pub success: bool,
    /// Informational message; empty on both paths of this core.
    pub message: String,
    /// The error message; empty on success.
    pub error: String,
    /// The payload; empty on failure.
    pub data: Vec<T>,
}

/// The failure envelope for an error message: no payload, the flag down,
/// the message verbatim.
pub fn error_response_data(error_message: &str) -> (r: ResponseData<String>)
    ensures
        !r.success,
        r.error@ == error_message@,
        r.message@ == Seq::<char>::empty(),
        r.data@.len() == 0,
{
    ResponseData {
        success: false,
        message: String::new(),
        error: error_message.to_owned(),
        data: Vec::new(),
    }
}

/// The success envelope for a payload: the flag up, no error, the data
/// verbatim.
pub fn success_response_data<T>(data: Vec<T>) -> (r: ResponseData<T>)
    ensures
        r.success,
        r.error@ == Seq::<char>::empty(),
        r.message@ == Seq::<char>::empty(),
        r.data == data,
{
    ResponseData { success: true, message: String::new(), error: String::new(), data }
}

} // verus!
