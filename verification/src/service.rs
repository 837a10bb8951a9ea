//! The credential service: create, read, update and delete over the record
//! store and the credential cache, and the consistency policy between the
//! two.
//!
//! The store is the system of record; the cache is a best-effort mirror.
//! Every write path keeps the mirror current where the cache is reachable:
//! create appends to (or seeds) the customer's entry, update refreshes it
//! from the store, delete refreshes or drops it, and a read that fell back
//! to the store repopulates it.  A refused cache write never fails an
//! operation whose store write succeeded.
//!
//! The cache read-modify-write on the create path is not fenced: two
//! concurrent creates for one customer can race and the mirror can drop an
//! entry, while the store stays correct.  This core models one operation
//! at a time; the race is a property of the deployment, documented here
//! rather than hidden.

use vstd::prelude::*;

use crate::cache::{
    spec_cache_get, spec_cache_put, spec_cache_remove, CacheView, CredentialCache, clone_records,
};
use crate::customer_nwc::{CustomerNwc, CustomerNwcResponse, NwcView, ResponseView};
use crate::errors::{
    create_error, lookup_error, spec_create_error, spec_lookup_error, NwcError,
};
use crate::store::{
    natural_key_index, rows_for_customer, spec_delete, spec_get_by_customer, spec_insert,
    spec_update, RecordStore, StoreView,
};
use crate::views::NewNwcRequest;

verus! {

/// Mathematical view of the whole service: the store and its mirror.
pub ghost struct ServiceView {
    pub store: StoreView,
    pub cache: CacheView,
}

/// The record a create request asks the store to persist, before an
/// identifier is assigned.
pub open spec fn requested_record(
    uuid: Seq<char>,
    app_service: Seq<char>,
    budget: int,
    frag: ResponseView,
) -> NwcView {
    NwcView {
        id: None,
        uuid,
        server_key: frag.server_key,
        user_key: frag.user_key,
        uri: frag.uri,
        app_service,
        budget,
    }
}

/// How create maintains the mirror: append to the customer's entry on a
/// hit, seed a singleton on a miss, and leave an unreachable cache alone.
pub open spec fn spec_cache_after_create(c: CacheView, uuid: Seq<char>, rec: NwcView) -> CacheView {
    match spec_cache_get(c, uuid) {
        Some(list) => spec_cache_put(c, uuid, list.push(rec)),
        None => spec_cache_put(c, uuid, seq![rec]),
    }
}

/// What `create` does: the generated fragment is persisted under the
/// request's natural key, and on success the mirror learns the persisted
/// row; on any failure the state is untouched.
pub open spec fn spec_create(
    s: ServiceView,
    uuid: Seq<char>,
    app_service: Seq<char>,
    budget: int,
    frag: ResponseView,
) -> (ServiceView, Result<NwcView, NwcError>) {
    let (store2, ir) = spec_insert(s.store, requested_record(uuid, app_service, budget, frag));
    match ir {
        Err(e) => (ServiceView { store: store2, cache: s.cache }, Err(spec_create_error(e))),
        Ok(persisted) => (
            ServiceView { store: store2, cache: spec_cache_after_create(s.cache, uuid, persisted) },
            Ok(persisted),
        ),
    }
}

/// What `read` does: a cache hit answers directly; a miss falls back to
/// the store, where an empty result is `NotFound` and a non-empty one is
/// returned and repopulates the mirror.
pub open spec fn spec_read(s: ServiceView, uuid: Seq<char>) -> (
    ServiceView,
    Result<Seq<NwcView>, NwcError>,
) {
    match spec_cache_get(s.cache, uuid) {
        Some(list) => (s, Ok(list)),
        None => match spec_get_by_customer(s.store, uuid) {
            Err(e) => (s, Err(spec_lookup_error(e))),
            Ok(rows) => if rows.len() == 0 {
                (s, Err(NwcError::NotFound))
            } else {
                (
                    ServiceView { store: s.store, cache: spec_cache_put(s.cache, uuid, rows) },
                    Ok(rows),
                )
            },
        },
    }
}

/// What `update` does: the row carrying the record's natural key gets the
/// record's keys, URI and budget; on success the mirror is refreshed from
/// the store and the input record is echoed as confirmation.
pub open spec fn spec_service_update(s: ServiceView, rec: NwcView) -> (
    ServiceView,
    Result<NwcView, NwcError>,
) {
    let (store2, ur) = spec_update(s.store, rec);
    match ur {
        Err(e) => (ServiceView { store: store2, cache: s.cache }, Err(spec_lookup_error(e))),
        Ok(_) => (
            ServiceView {
                store: store2,
                cache: spec_cache_put(s.cache, rec.uuid, rows_for_customer(store2.rows, rec.uuid)),
            },
            Ok(rec),
        ),
    }
}

/// What `delete` does: the row carrying the natural key is removed; on
/// success the mirror entry is refreshed from the store, or dropped when
/// the customer has no rows left.
pub open spec fn spec_service_delete(s: ServiceView, uuid: Seq<char>, app_service: Seq<char>) -> (
    ServiceView,
    Result<(), NwcError>,
) {
    let (store2, dr) = spec_delete(s.store, uuid, app_service);
    match dr {
        Err(e) => (ServiceView { store: store2, cache: s.cache }, Err(spec_lookup_error(e))),
        Ok(_) => {
            let rows = rows_for_customer(store2.rows, uuid);
            let cache2 = if rows.len() == 0 {
                spec_cache_remove(s.cache, uuid)
            } else {
                spec_cache_put(s.cache, uuid, rows)
            };
            (ServiceView { store: store2, cache: cache2 }, Ok(()))
        },
    }
}

/// The cache entry a create leaves for the customer: the persisted row
/// appended to the entry the mirror held, or a fresh singleton on a miss.
/// The append-or-seed decision lives here, shared by the verified
/// orchestrator and the transport adapter.
pub fn cache_entry_after_create(existing: Option<Vec<CustomerNwc>>, persisted: CustomerNwc) -> (r:
    Vec<CustomerNwc>)
    ensures
        r.deep_view() == (match existing {
            Some(list) => list.deep_view().push(persisted@),
            None => seq![persisted@],
        }),
        r@.len() > 0,
{
    let ghost p = persisted@;
    match existing {
        Some(mut list) => {
            let ghost cached = list.deep_view();
            list.push(persisted);
            proof {
                assert(list.deep_view() =~= cached.push(p));
            }
            list
        },
        None => {
            let mut single: Vec<CustomerNwc> = Vec::new();
            single.push(persisted);
            proof {
                assert(single.deep_view() =~= seq![p]);
            }
            single
        },
    }
}

/// What a write path does to the customer's mirror entry afterwards:
/// refresh it with the store's rows, or drop it when none are left.
pub enum CacheRefresh {
    /// The customer has no rows left; the entry is dropped.
    DropEntry,
    /// The customer still has rows; the entry is overwritten with them.
    WriteEntry(Vec<CustomerNwc>),
}

/// Decides how the mirror follows the store after a write: the entry is
/// dropped when the customer's rows are gone and overwritten with them
/// otherwise.  Shared by the verified orchestrator and the transport
/// adapter.
pub fn cache_refresh_plan(rows: Vec<CustomerNwc>) -> (r: CacheRefresh)
    ensures
        match r {
            CacheRefresh::DropEntry => rows.deep_view().len() == 0,
            CacheRefresh::WriteEntry(v) => v.deep_view() == rows.deep_view() && v@.len() > 0,
        },
{
    if rows.len() == 0 {
        CacheRefresh::DropEntry
    } else {
        CacheRefresh::WriteEntry(rows)
    }
}

/// The orchestrator owning a record store and its cache mirror.
pub struct CredentialService {
    pub store: RecordStore,
    pub cache: CredentialCache,
}

impl View for CredentialService {
    type V = ServiceView;

    open spec fn view(&self) -> ServiceView {
        ServiceView { store: self.store@, cache: self.cache@ }
    }
}

impl CredentialService {
    /// Well-formedness of both halves.
    pub open spec fn wf(&self) -> bool {
        self.store.wf() && self.cache.wf()
    }

    /// A fresh service over an empty store and an empty cache, both
    /// reachable.
    pub fn new() -> (r: CredentialService)
        ensures
            r.wf(),
            r@ == (ServiceView {
                store: StoreView { rows: Seq::<NwcView>::empty(), next_id: 1int, available: true },
                cache: CacheView {
                    entries: Map::<Seq<char>, Seq<NwcView>>::empty(),
                    available: true,
                },
            }),
    {
        CredentialService { store: RecordStore::new(), cache: CredentialCache::new() }
    }

    /// Persists a freshly generated credential fragment under the request's
    /// natural key and teaches the mirror the persisted row.
    ///
    /// Success is owed exactly when the store is reachable, its identifier
    /// space is not exhausted, and the natural key is free; a collision is
    /// `DuplicateEntry`, any other store failure `StoreError`, and every
    /// failure leaves the state untouched.  A refused cache write does not
    /// fail the operation: the record exists durably either way.
    pub fn create(&mut self, req: &NewNwcRequest, fragment: &CustomerNwcResponse) -> (r: Result<
        CustomerNwc,
        NwcError,
    >)
        requires
            old(self).wf(),
        ensures
            final(self).wf(),
            ({
                let (s2, r2) = spec_create(
                    old(self)@,
                    req@.uuid,
                    req@.app_service,
                    req@.budget,
                    fragment@,
                );
                &&& final(self)@ == s2
                &&& match r {
                    Ok(c) => r2 == Ok::<NwcView, NwcError>(c@),
                    Err(e) => r2 == Err::<NwcView, NwcError>(e),
                }
            }),
    {
        let rec = CustomerNwc {
            id: None,
            uuid: req.uuid.clone(),
            server_key: fragment.server_key.clone(),
            user_key: fragment.user_key.clone(),
            uri: fragment.uri.clone(),
            app_service: req.app_service.clone(),
            budget: req.budget,
        };
        match self.store.insert(rec) {
            Err(e) => Err(create_error(e)),
            Ok(persisted) => {
                let out = persisted.clone();
                let existing = self.cache.get(&out.uuid);
                let entry = cache_entry_after_create(existing, persisted);
                self.cache.put_best_effort(&out.uuid, entry);
                Ok(out)
            },
        }
    }

    /// Answers a read from the mirror when it holds the customer, else
    /// from the store, repopulating the mirror on the way back.
    ///
    /// Success is owed exactly when the mirror holds the customer or the
    /// store is reachable and has rows for it; a customer with no rows is
    /// `NotFound`, an unreachable store (on a cache miss) `StoreError`.  A
    /// successful read is never an empty list.
    pub fn read(&mut self, uuid: &String) -> (r: Result<Vec<CustomerNwc>, NwcError>)
        requires
            old(self).wf(),
        ensures
            final(self).wf(),
            r matches Ok(v) ==> v@.len() > 0,
            ({
                let (s2, r2) = spec_read(old(self)@, uuid@);
                &&& final(self)@ == s2
                &&& match r {
                    Ok(v) => r2 == Ok::<Seq<NwcView>, NwcError>(v.deep_view()),
                    Err(e) => r2 == Err::<Seq<NwcView>, NwcError>(e),
                }
            }),
    {
        match self.cache.get(uuid) {
            Some(list) => Ok(list),
            None => match self.store.get_by_customer(uuid) {
                Err(e) => Err(lookup_error(e)),
                Ok(rows) => {
                    if rows.len() == 0 {
                        Err(NwcError::NotFound)
                    } else {
                        let copy = clone_records(&rows);
                        self.cache.put_best_effort(uuid, copy);
                        Ok(rows)
                    }
                },
            },
        }
    }

    /// Replaces the keys, URI and budget of the stored row carrying the
    /// record's natural key, refreshes the mirror from the store, and
    /// echoes the input record as confirmation.
    ///
    /// Success is owed exactly when the store is reachable and a row
    /// carries the natural key; a missing row is `NotFound`, an
    /// unreachable store `StoreError`, and every failure leaves the state
    /// untouched.
    pub fn update(&mut self, rec: &CustomerNwc) -> (r: Result<CustomerNwc, NwcError>)
        requires
            old(self).wf(),
        ensures
            final(self).wf(),
            ({
                let (s2, r2) = spec_service_update(old(self)@, rec@);
                &&& final(self)@ == s2
                &&& match r {
                    Ok(c) => r2 == Ok::<NwcView, NwcError>(c@),
                    Err(e) => r2 == Err::<NwcView, NwcError>(e),
                }
            }),
    {
        match self.store.update_by_natural_key(rec) {
            Err(e) => Err(lookup_error(e)),
            Ok(_) => {
                let rows = match self.store.get_by_customer(&rec.uuid) {
                    Ok(rows) => rows,
                    Err(_) => {
                        proof {
                            // The store answered the update, so it is
                            // reachable and cannot refuse the read back.
                            assert(false);
                        }
                        Vec::new()
                    },
                };
                proof {
                    // The updated row keeps its customer identifier, so
                    // the customer still has rows and the refreshed entry
                    // is non-empty.
                    let old_rows = old(self)@.store.rows;
                    let idx = natural_key_index(old_rows, rec@.uuid, rec@.app_service);
                    let new_rows = self@.store.rows;
                    assert(new_rows[idx].uuid == rec@.uuid);
                    new_rows.lemma_filter_contains(|v: NwcView| v.uuid == rec@.uuid, idx);
                    assert(rows_for_customer(new_rows, rec@.uuid).contains(new_rows[idx]));
                }
                self.cache.put_best_effort(&rec.uuid, rows);
                Ok(rec.clone())
            },
        }
    }

    /// Removes the stored row carrying the natural key and brings the
    /// mirror up to date: the entry is refreshed from the store, or
    /// dropped when the customer has no rows left.
    ///
    /// Success is owed exactly when the store is reachable and a row
    /// carries the natural key; a missing row is `NotFound`, an
    /// unreachable store `StoreError`, and every failure leaves the state
    /// untouched.
    pub fn delete(&mut self, uuid: &String, app_service: &String) -> (r: Result<(), NwcError>)
        requires
            old(self).wf(),
        ensures
            final(self).wf(),
            ({
                let (s2, r2) = spec_service_delete(old(self)@, uuid@, app_service@);
                final(self)@ == s2 && r == r2
            }),
    {
        match self.store.delete_by_natural_key(uuid, app_service) {
            Err(e) => Err(lookup_error(e)),
            Ok(_) => {
                let rows = match self.store.get_by_customer(uuid) {
                    Ok(rows) => rows,
                    Err(_) => {
                        proof {
                            // The store answered the delete, so it is
                            // reachable and cannot refuse the read back.
                            assert(false);
                        }
                        Vec::new()
                    },
                };
                match cache_refresh_plan(rows) {
                    CacheRefresh::DropEntry => self.cache.remove_best_effort(uuid),
                    CacheRefresh::WriteEntry(v) => self.cache.put_best_effort(uuid, v),
                }
                Ok(())
            },
        }
    }
}

} // verus!
