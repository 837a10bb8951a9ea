//! The consistency laws of the credential service, proved over the spec
//! transitions that the executable operations are verified against.
//!
//! Each law speaks about one or two operations on an arbitrary service
//! state.  Only the cache-population law assumes the cache is reachable
//! when the first operation runs: with the cache backend down, a create
//! cannot teach the mirror anything, so nothing can be served from the
//! mirror alone afterwards.  The update and delete laws hold either way,
//! because an unreachable mirror always misses and the read then falls
//! back to the store, which is fresh.

use vstd::prelude::*;

use crate::cache::spec_cache_get;
use crate::customer_nwc::{nk_matches, unique_natural_keys, NwcView, ResponseView};
use crate::errors::NwcError;
use crate::service::{
    spec_create, spec_read, spec_service_delete, spec_service_update, ServiceView,
};
use crate::store::{has_natural_key, natural_key_index, rows_for_customer, StoreView};

verus! {

/// Every row a filtered read returns stands in the table it was filtered
/// from.
proof fn lemma_rows_for_customer_membership(rows: Seq<NwcView>, uuid: Seq<char>, i: int)
    requires
        0 <= i < rows_for_customer(rows, uuid).len(),
    ensures
        exists|j: int| 0 <= j < rows.len() && #[trigger] rows[j] == rows_for_customer(
            rows,
            uuid,
        )[i],
    decreases rows.len(),
{
    reveal(Seq::filter);
    let pred = |r: NwcView| r.uuid == uuid;
    if rows.len() > 0 {
        let fd = rows.drop_last().filter(pred);
        if pred(rows.last()) {
            if i < fd.len() {
                lemma_rows_for_customer_membership(rows.drop_last(), uuid, i);
                let j = choose|j: int|
                    0 <= j < rows.drop_last().len() && #[trigger] rows.drop_last()[j]
                        == rows_for_customer(rows.drop_last(), uuid)[i];
                assert(rows[j] == rows.drop_last()[j]);
            } else {
                assert(rows_for_customer(rows, uuid)[i] == rows.last());
                assert(rows[rows.len() - 1] == rows.last());
            }
        } else {
            lemma_rows_for_customer_membership(rows.drop_last(), uuid, i);
            let j = choose|j: int|
                0 <= j < rows.drop_last().len() && #[trigger] rows.drop_last()[j]
                    == rows_for_customer(rows.drop_last(), uuid)[i];
            assert(rows[j] == rows.drop_last()[j]);
        }
    }
}

/// A successful create persists the request: the store's rows grow by
/// exactly one row, which carries the request's customer identifier,
/// application-service identifier and budget, the generated keys and URI,
/// and the next fresh identifier.  A failed create leaves the state
/// untouched.
pub proof fn lemma_create_persists(
    s: ServiceView,
    uuid: Seq<char>,
    app_service: Seq<char>,
    budget: int,
    frag: ResponseView,
)
    ensures
        ({
            let (s1, r) = spec_create(s, uuid, app_service, budget, frag);
            &&& (r matches Ok(rec) ==> {
                &&& s1.store.rows == s.store.rows.push(rec)
                &&& rec.uuid == uuid
                &&& rec.app_service == app_service
                &&& rec.budget == budget
                &&& rec.server_key == frag.server_key
                &&& rec.user_key == frag.user_key
                &&& rec.uri == frag.uri
                &&& rec.id == Some(s.store.next_id)
            })
            &&& (r is Err ==> s1 == s)
        }),
{
}

/// A create whose natural key is already taken changes nothing: the
/// existing row, the rest of the store and the mirror all stay as they
/// were, and — when the store is reachable and its identifier space not
/// exhausted, the two conditions an insert checks first — the caller is
/// told `DuplicateEntry`.
pub proof fn lemma_create_duplicate_rejected(
    s: ServiceView,
    uuid: Seq<char>,
    app_service: Seq<char>,
    budget: int,
    frag: ResponseView,
)
    requires
        has_natural_key(s.store.rows, uuid, app_service),
    ensures
        ({
            let (s1, r) = spec_create(s, uuid, app_service, budget, frag);
            &&& s1 == s
            &&& r is Err
            &&& (s.store.available && s.store.next_id < i32::MAX ==> r == Err::<
                NwcView,
                NwcError,
            >(NwcError::DuplicateEntry))
        }),
{
}

/// Reading twice in a row, with no intervening writes, answers the same
/// both times: the first read leaves the mirror in a state on which the
/// second read repeats its answer.
pub proof fn lemma_read_idempotent(s: ServiceView, uuid: Seq<char>)
    ensures
        ({
            let (s1, r1) = spec_read(s, uuid);
            let (s2, r2) = spec_read(s1, uuid);
            r2 == r1 && s2 == s1
        }),
{
}

/// After a create that succeeded against a reachable cache, the customer's
/// records are served from the mirror alone: even with the store
/// unreachable the read succeeds, and its answer ends with the new record.
pub proof fn lemma_create_then_read_hits_cache(
    s: ServiceView,
    uuid: Seq<char>,
    app_service: Seq<char>,
    budget: int,
    frag: ResponseView,
)
    requires
        s.cache.available,
    ensures
        ({
            let (s1, r) = spec_create(s, uuid, app_service, budget, frag);
            r matches Ok(rec) ==> {
                let cut = ServiceView {
                    store: StoreView {
                        rows: s1.store.rows,
                        next_id: s1.store.next_id,
                        available: false,
                    },
                    cache: s1.cache,
                };
                let (s2, r2) = spec_read(cut, uuid);
                &&& r2 is Ok
                &&& (r2 matches Ok(list) ==> list.len() > 0 && list.last() == rec
                    && list.contains(rec))
            }
        }),
{
    let (s1, r) = spec_create(s, uuid, app_service, budget, frag);
    if r is Ok {
        let rec = r->Ok_0;
        match spec_cache_get(s.cache, uuid) {
            Some(list0) => {
                assert(s1.cache.entries[uuid] == list0.push(rec));
                assert(list0.push(rec)[list0.len() as int] == rec);
            },
            None => {
                assert(s1.cache.entries[uuid] == seq![rec]);
                assert(seq![rec][0] == rec);
            },
        }
        let cut = ServiceView {
            store: StoreView { rows: s1.store.rows, next_id: s1.store.next_id, available: false },
            cache: s1.cache,
        };
        let list = s1.cache.entries[uuid];
        assert(list[list.len() - 1] == rec);
        assert(list.contains(rec));
    }
}

/// After a successful update, a read for that customer reflects the
/// update, whether or not the cache is reachable: it returns exactly the
/// store's rows for the customer, and the row carrying the updated natural
/// key carries the updated keys, URI and budget — never stale values.  (A
/// reachable cache is refreshed and answers the read; an unreachable one
/// always misses, and the read falls back to the fresh store.)
pub proof fn lemma_update_then_read_fresh(s: ServiceView, rec: NwcView)
    requires
        unique_natural_keys(s.store.rows),
    ensures
        ({
            let (s1, r) = spec_service_update(s, rec);
            r is Ok ==> {
                let (s2, r2) = spec_read(s1, rec.uuid);
                &&& r2 == Ok::<Seq<NwcView>, NwcError>(rows_for_customer(s1.store.rows, rec.uuid))
                &&& (r2 matches Ok(list) ==> forall|i: int|
                    0 <= i < list.len() && nk_matches(#[trigger] list[i], rec.uuid, rec.app_service)
                        ==> list[i].server_key == rec.server_key && list[i].user_key == rec.user_key
                        && list[i].uri == rec.uri && list[i].budget == rec.budget)
            }
        }),
{
    let (s1, r) = spec_service_update(s, rec);
    if r is Ok {
        let idx = natural_key_index(s.store.rows, rec.uuid, rec.app_service);
        let updated = NwcView { id: s.store.rows[idx].id, ..rec };
        assert(s1.store.rows == s.store.rows.update(idx, updated));
        let list = rows_for_customer(s1.store.rows, rec.uuid);
        // The updated row keeps the customer identifier, so the customer
        // still has rows and the read succeeds on either path: from the
        // refreshed mirror when the cache is reachable, from the store
        // otherwise.
        s1.store.rows.lemma_filter_contains(|v: NwcView| v.uuid == rec.uuid, idx);
        assert(list.contains(updated));
        if s.cache.available {
            assert(s1.cache.entries[rec.uuid] == list);
        }
        assert forall|i: int|
            0 <= i < list.len() && nk_matches(
                #[trigger] list[i],
                rec.uuid,
                rec.app_service,
            ) implies list[i].server_key == rec.server_key && list[i].user_key == rec.user_key
            && list[i].uri == rec.uri && list[i].budget == rec.budget by {
            lemma_rows_for_customer_membership(s1.store.rows, rec.uuid, i);
            let j = choose|j: int|
                0 <= j < s1.store.rows.len() && #[trigger] s1.store.rows[j] == list[i];
            if j != idx {
                assert(s1.store.rows[j] == s.store.rows[j]);
                assert(nk_matches(s.store.rows[j], rec.uuid, rec.app_service));
                assert(nk_matches(s.store.rows[idx], rec.uuid, rec.app_service));
                if j < idx {
                    assert(!nk_matches(
                        s.store.rows[idx],
                        s.store.rows[j].uuid,
                        s.store.rows[j].app_service,
                    ));
                } else {
                    assert(!nk_matches(
                        s.store.rows[j],
                        s.store.rows[idx].uuid,
                        s.store.rows[idx].app_service,
                    ));
                }
            }
        }
    }
}

/// After a successful delete, a read for that customer never returns the
/// deleted record, whether or not the cache is reachable: either the
/// customer has no rows left and the read is `NotFound`, or the read
/// succeeds and no returned row carries the deleted natural key.
pub proof fn lemma_delete_then_read_gone(s: ServiceView, uuid: Seq<char>, app_service: Seq<char>)
    requires
        unique_natural_keys(s.store.rows),
    ensures
        ({
            let (s1, r) = spec_service_delete(s, uuid, app_service);
            r is Ok ==> {
                let (s2, r2) = spec_read(s1, uuid);
                match r2 {
                    Ok(list) => forall|i: int|
                        0 <= i < list.len() ==> !nk_matches(#[trigger] list[i], uuid, app_service),
                    Err(e) => e == NwcError::NotFound,
                }
            }
        }),
{
    let (s1, r) = spec_service_delete(s, uuid, app_service);
    if r is Ok {
        let idx = natural_key_index(s.store.rows, uuid, app_service);
        assert(s1.store.rows == s.store.rows.remove(idx));
        let remaining = rows_for_customer(s1.store.rows, uuid);
        if remaining.len() == 0 {
            // The mirror entry is dropped when the cache is reachable and
            // invisible when it is not: the read misses either way and the
            // store fallback answers `NotFound`.
            assert(spec_cache_get(s1.cache, uuid) is None);
        } else {
            if s.cache.available {
                assert(s1.cache.entries[uuid] == remaining);
            }
            assert forall|i: int| 0 <= i < remaining.len() implies !nk_matches(
                #[trigger] remaining[i],
                uuid,
                app_service,
            ) by {
                lemma_rows_for_customer_membership(s1.store.rows, uuid, i);
                let j = choose|j: int|
                    0 <= j < s1.store.rows.len() && #[trigger] s1.store.rows[j] == remaining[i];
                let oj = if j < idx {
                    j
                } else {
                    j + 1
                };
                assert(s1.store.rows[j] == s.store.rows[oj]);
                if nk_matches(remaining[i], uuid, app_service) {
                    assert(nk_matches(s.store.rows[oj], uuid, app_service));
                    assert(nk_matches(s.store.rows[idx], uuid, app_service));
                    if oj < idx {
                        assert(!nk_matches(
                            s.store.rows[idx],
                            s.store.rows[oj].uuid,
                            s.store.rows[oj].app_service,
                        ));
                    } else {
                        assert(!nk_matches(
                            s.store.rows[oj],
                            s.store.rows[idx].uuid,
                            s.store.rows[idx].app_service,
                        ));
                    }
                }
            }
        }
    }
}

} // verus!
