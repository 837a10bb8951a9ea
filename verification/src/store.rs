//! The record store: the durable table of credential records and the system
//! of record.
//!
//! Rows are addressed by the natural key (customer identifier,
//! application-service identifier), which the store keeps unique.  Every
//! operation first checks availability: an unavailable store models a
//! backend that cannot be reached (connectivity loss, timeout, pool
//! exhaustion) and answers every call with a `Database` failure.

use vstd::prelude::*;

use crate::customer_nwc::{nk_matches, unique_natural_keys, CustomerNwc, NwcView};
use crate::errors::StoreError;

verus! {

/// The rows a customer owns, in insertion order.
pub open spec fn rows_for_customer(rows: Seq<NwcView>, uuid: Seq<char>) -> Seq<NwcView> {
    rows.filter(|r: NwcView| r.uuid == uuid)
}

/// Does any row carry the given natural key?
pub open spec fn has_natural_key(rows: Seq<NwcView>, uuid: Seq<char>, app_service: Seq<char>) -> bool {
    exists|i: int| 0 <= i < rows.len() && nk_matches(#[trigger] rows[i], uuid, app_service)
}

/// The index of the row carrying the given natural key; meaningful only
/// when `has_natural_key` holds, and unique when the rows have unique
/// natural keys.
pub open spec fn natural_key_index(rows: Seq<NwcView>, uuid: Seq<char>, app_service: Seq<char>) -> int {
    choose|i: int| 0 <= i < rows.len() && nk_matches(#[trigger] rows[i], uuid, app_service)
}

/// With unique natural keys, any matching index is the matching index.
pub proof fn lemma_natural_key_index_unique(
    rows: Seq<NwcView>,
    uuid: Seq<char>,
    app_service: Seq<char>,
    i: int,
)
    requires
        unique_natural_keys(rows),
        0 <= i < rows.len(),
        nk_matches(rows[i], uuid, app_service),
    ensures
        has_natural_key(rows, uuid, app_service),
        natural_key_index(rows, uuid, app_service) == i,
{
    assert(has_natural_key(rows, uuid, app_service));
    let j = natural_key_index(rows, uuid, app_service);
    assert(0 <= j < rows.len() && nk_matches(rows[j], uuid, app_service));
    if i < j {
        assert(!nk_matches(rows[j], rows[i].uuid, rows[i].app_service));
    } else if j < i {
        assert(!nk_matches(rows[i], rows[j].uuid, rows[j].app_service));
    }
}

/// Mathematical view of the record store.
pub ghost struct StoreView {
    /// The table's rows, in insertion order.
    pub rows: Seq<NwcView>,
    /// The identifier the next inserted row receives.
    pub next_id: int,
    /// Whether the backend can currently be reached.
    pub available: bool,
}

/// What `insert` does: on an unavailable backend or an exhausted identifier
/// space, a `Database` failure; on a natural-key collision, `Duplicate`;
/// otherwise the row is appended with the next fresh identifier and the
/// persisted row is returned.
pub open spec fn spec_insert(s: StoreView, rec: NwcView) -> (StoreView, Result<NwcView, StoreError>) {
    if !s.available {
        (s, Err(StoreError::Database))
    } else if s.next_id >= i32::MAX {
        (s, Err(StoreError::Database))
    } else if has_natural_key(s.rows, rec.uuid, rec.app_service) {
        (s, Err(StoreError::Duplicate))
    } else {
        let persisted = NwcView { id: Some(s.next_id), ..rec };
        (
            StoreView { rows: s.rows.push(persisted), next_id: s.next_id + 1, available: true },
            Ok(persisted),
        )
    }
}

/// What `get_by_customer` does: on an unavailable backend, a `Database`
/// failure; otherwise the customer's rows, in insertion order (an empty
/// list is not an error).
pub open spec fn spec_get_by_customer(s: StoreView, uuid: Seq<char>) -> Result<Seq<NwcView>, StoreError> {
    if !s.available {
        Err(StoreError::Database)
    } else {
        Ok(rows_for_customer(s.rows, uuid))
    }
}

/// What `update_by_natural_key` does: on an unavailable backend, a
/// `Database` failure; with no matching row, `RowNotFound`; otherwise the
/// matching row's keys, URI and budget are replaced while its identifier
/// and natural key stay.
pub open spec fn spec_update(s: StoreView, rec: NwcView) -> (StoreView, Result<(), StoreError>) {
    if !s.available {
        (s, Err(StoreError::Database))
    } else if !has_natural_key(s.rows, rec.uuid, rec.app_service) {
        (s, Err(StoreError::RowNotFound))
    } else {
        let i = natural_key_index(s.rows, rec.uuid, rec.app_service);
        let updated = NwcView { id: s.rows[i].id, ..rec };
        (StoreView { rows: s.rows.update(i, updated), next_id: s.next_id, available: true }, Ok(()))
    }
}

/// What `delete_by_natural_key` does: on an unavailable backend, a
/// `Database` failure; with no matching row, `RowNotFound`; otherwise the
/// matching row is removed.
pub open spec fn spec_delete(s: StoreView, uuid: Seq<char>, app_service: Seq<char>) -> (
    StoreView,
    Result<(), StoreError>,
) {
    if !s.available {
        (s, Err(StoreError::Database))
    } else if !has_natural_key(s.rows, uuid, app_service) {
        (s, Err(StoreError::RowNotFound))
    } else {
        let i = natural_key_index(s.rows, uuid, app_service);
        (StoreView { rows: s.rows.remove(i), next_id: s.next_id, available: true }, Ok(()))
    }
}

/// The durable table of credential records.
pub struct RecordStore {
    rows: Vec<CustomerNwc>,
    next_id: i32,
    available: bool,
}

impl View for RecordStore {
    type V = StoreView;

    closed spec fn view(&self) -> StoreView {
        StoreView {
            rows: self.rows.deep_view(),
            next_id: self.next_id as int,
            available: self.available,
        }
    }
}

/// Finds the row carrying the given natural key, if any.
fn find_natural_key(rows: &Vec<CustomerNwc>, uuid: &String, app_service: &String) -> (r: Option<
    usize,
>)
    ensures
        match r {
            Some(i) => i < rows.deep_view().len() && nk_matches(
                rows.deep_view()[i as int],
                uuid@,
                app_service@,
            ),
            None => !has_natural_key(rows.deep_view(), uuid@, app_service@),
        },
{
    let n = rows.len();
    let mut i: usize = 0;
    while i < n
        invariant
            i <= n,
            n == rows.deep_view().len(),
            forall|k: int|
                0 <= k < i ==> !nk_matches(#[trigger] rows.deep_view()[k], uuid@, app_service@),
        decreases n - i,
    {
        let row = &rows[i];
        if row.uuid == *uuid && row.app_service == *app_service {
            return Some(i);
        }
        i = i + 1;
    }
    None
}

/// One filtering step: extending the scanned prefix by one row extends its
/// filtered image by the row exactly when the row matches.
proof fn lemma_filter_step(rows: Seq<NwcView>, uuid: Seq<char>, i: int)
    requires
        0 <= i < rows.len(),
    ensures
        rows.subrange(0, i + 1).filter(|r: NwcView| r.uuid == uuid) == rows.subrange(0, i).filter(
            |r: NwcView| r.uuid == uuid,
        ) + (if rows[i].uuid == uuid {
            seq![rows[i]]
        } else {
            Seq::<NwcView>::empty()
        }),
{
    reveal(Seq::filter);
    let pred = |r: NwcView| r.uuid == uuid;
    let prefix = rows.subrange(0, i + 1);
    assert(prefix.drop_last() =~= rows.subrange(0, i));
    assert(prefix.last() == rows[i]);
    if rows[i].uuid == uuid {
        assert(prefix.filter(pred) =~= prefix.drop_last().filter(pred) + seq![rows[i]]);
    } else {
        assert(prefix.filter(pred) =~= prefix.drop_last().filter(pred));
    }
}

/// Clones the rows owned by a customer, in insertion order.
fn rows_matching(rows: &Vec<CustomerNwc>, uuid: &String) -> (r: Vec<CustomerNwc>)
    ensures
        r.deep_view() == rows_for_customer(rows.deep_view(), uuid@),
{
    let n = rows.len();
    let mut out: Vec<CustomerNwc> = Vec::new();
    let mut i: usize = 0;
    while i < n
        invariant
            i <= n,
            n == rows.deep_view().len(),
            out.deep_view() == rows.deep_view().subrange(0, i as int).filter(
                |r: NwcView| r.uuid == uuid@,
            ),
        decreases n - i,
    {
        let row = &rows[i];
        proof {
            lemma_filter_step(rows.deep_view(), uuid@, i as int);
        }
        if row.uuid == *uuid {
            out.push(row.clone());
        }
        proof {
            assert(out.deep_view() =~= rows.deep_view().subrange(0, i + 1 as int).filter(
                |r: NwcView| r.uuid == uuid@,
            ));
        }
        i = i + 1;
    }
    proof {
        assert(rows.deep_view().subrange(0, n as int) =~= rows.deep_view());
    }
    out
}

impl RecordStore {
    /// Well-formedness: natural keys are unique and the next identifier is
    /// in range.  Constructors establish it and every operation preserves
    /// it.
    pub open spec fn wf(&self) -> bool {
        &&& unique_natural_keys(self@.rows)
        &&& 1 <= self@.next_id <= i32::MAX
    }

    /// A fresh, empty, reachable store; identifiers start at 1.
    pub fn new() -> (r: RecordStore)
        ensures
            r.wf(),
            r@ == (StoreView { rows: Seq::<NwcView>::empty(), next_id: 1int, available: true }),
    {
        let r = RecordStore { rows: Vec::new(), next_id: 1, available: true };
        proof {
            assert(r@.rows =~= Seq::<NwcView>::empty());
        }
        r
    }

    /// Makes the backend reachable or unreachable; the table keeps its rows
    /// either way.
    pub fn set_available(&mut self, available: bool)
        requires
            old(self).wf(),
        ensures
            final(self).wf(),
            final(self)@ == (StoreView {
                rows: old(self)@.rows,
                next_id: old(self)@.next_id,
                available,
            }),
    {
        self.available = available;
    }

    /// Inserts a record and returns the persisted row, with its assigned
    /// identifier; a natural-key collision is a `Duplicate`, any other
    /// backend failure a `Database` error.  The input record's `id` field
    /// is ignored.
    pub fn insert(&mut self, rec: CustomerNwc) -> (r: Result<CustomerNwc, StoreError>)
        requires
            old(self).wf(),
        ensures
            final(self).wf(),
            ({
                let (s2, r2) = spec_insert(old(self)@, rec@);
                &&& final(self)@ == s2
                &&& match r {
                    Ok(c) => r2 == Ok::<NwcView, StoreError>(c@),
                    Err(e) => r2 == Err::<NwcView, StoreError>(e),
                }
            }),
    {
        if !self.available {
            return Err(StoreError::Database);
        }
        if self.next_id >= i32::MAX {
            return Err(StoreError::Database);
        }
        match find_natural_key(&self.rows, &rec.uuid, &rec.app_service) {
            Some(_) => Err(StoreError::Duplicate),
            None => {
                let persisted = CustomerNwc {
                    id: Some(self.next_id),
                    uuid: rec.uuid,
                    server_key: rec.server_key,
                    user_key: rec.user_key,
                    uri: rec.uri,
                    app_service: rec.app_service,
                    budget: rec.budget,
                };
                let out = persisted.clone();
                let ghost old_rows = self.rows.deep_view();
                self.rows.push(persisted);
                self.next_id = self.next_id + 1;
                proof {
                    assert(self.rows.deep_view() =~= old_rows.push(out@));
                    assert forall|i: int, j: int| 0 <= i < j < self.rows.deep_view().len() implies !nk_matches(
                        #[trigger] self.rows.deep_view()[j],
                        #[trigger] self.rows.deep_view()[i].uuid,
                        self.rows.deep_view()[i].app_service,
                    ) by {
                        if j < old_rows.len() {
                            assert(!nk_matches(old_rows[j], old_rows[i].uuid, old_rows[i].app_service));
                        } else {
                            assert(!nk_matches(old_rows[i], out@.uuid, out@.app_service));
                        }
                    }
                }
                Ok(out)
            },
        }
    }

    /// Returns the rows owned by a customer, in insertion order; an empty
    /// list is not an error.
    pub fn get_by_customer(&self, uuid: &String) -> (r: Result<Vec<CustomerNwc>, StoreError>)
        ensures
            match r {
                Ok(v) => spec_get_by_customer(self@, uuid@) == Ok::<Seq<NwcView>, StoreError>(
                    v.deep_view(),
                ),
                Err(e) => spec_get_by_customer(self@, uuid@) == Err::<Seq<NwcView>, StoreError>(e),
            },
    {
        if !self.available {
            return Err(StoreError::Database);
        }
        Ok(rows_matching(&self.rows, uuid))
    }

    /// Replaces the keys, URI and budget of the row carrying the record's
    /// natural key; the row keeps its identifier.  A missing row is a
    /// `RowNotFound`, an unreachable backend a `Database` error.
    pub fn update_by_natural_key(&mut self, rec: &CustomerNwc) -> (r: Result<(), StoreError>)
        requires
            old(self).wf(),
        ensures
            final(self).wf(),
            ({
                let (s2, r2) = spec_update(old(self)@, rec@);
                final(self)@ == s2 && r == r2
            }),
    {
        if !self.available {
            return Err(StoreError::Database);
        }
        match find_natural_key(&self.rows, &rec.uuid, &rec.app_service) {
            None => Err(StoreError::RowNotFound),
            Some(i) => {
                proof {
                    lemma_natural_key_index_unique(
                        old(self)@.rows,
                        rec@.uuid,
                        rec@.app_service,
                        i as int,
                    );
                }
                let old_id = self.rows[i].id;
                let ghost old_rows = self.rows.deep_view();
                let updated = CustomerNwc {
                    id: old_id,
                    uuid: rec.uuid.clone(),
                    server_key: rec.server_key.clone(),
                    user_key: rec.user_key.clone(),
                    uri: rec.uri.clone(),
                    app_service: rec.app_service.clone(),
                    budget: rec.budget,
                };
                let ghost updated_view = updated@;
                self.rows[i] = updated;
                proof {
                    assert(self.rows.deep_view() =~= old_rows.update(i as int, updated_view));
                    assert forall|a: int, b: int| 0 <= a < b < self.rows.deep_view().len() implies !nk_matches(
                        #[trigger] self.rows.deep_view()[b],
                        #[trigger] self.rows.deep_view()[a].uuid,
                        self.rows.deep_view()[a].app_service,
                    ) by {
                        assert(self.rows.deep_view()[a].uuid == old_rows[a].uuid);
                        assert(self.rows.deep_view()[a].app_service == old_rows[a].app_service);
                        assert(self.rows.deep_view()[b].uuid == old_rows[b].uuid);
                        assert(self.rows.deep_view()[b].app_service == old_rows[b].app_service);
                        assert(!nk_matches(old_rows[b], old_rows[a].uuid, old_rows[a].app_service));
                    }
                }
                Ok(())
            },
        }
    }

    /// Removes the row carrying the natural key.  A missing row is a
    /// `RowNotFound`, an unreachable backend a `Database` error.
    pub fn delete_by_natural_key(&mut self, uuid: &String, app_service: &String) -> (r: Result<
        (),
        StoreError,
    >)
        requires
            old(self).wf(),
        ensures
            final(self).wf(),
            ({
                let (s2, r2) = spec_delete(old(self)@, uuid@, app_service@);
                final(self)@ == s2 && r == r2
            }),
    {
        if !self.available {
            return Err(StoreError::Database);
        }
        match find_natural_key(&self.rows, uuid, app_service) {
            None => Err(StoreError::RowNotFound),
            Some(i) => {
                proof {
                    lemma_natural_key_index_unique(old(self)@.rows, uuid@, app_service@, i as int);
                }
                let ghost old_rows = self.rows.deep_view();
                self.rows.remove(i);
                proof {
                    assert(self.rows.deep_view() =~= old_rows.remove(i as int));
                    assert forall|a: int, b: int| 0 <= a < b < self.rows.deep_view().len() implies !nk_matches(
                        #[trigger] self.rows.deep_view()[b],
                        #[trigger] self.rows.deep_view()[a].uuid,
                        self.rows.deep_view()[a].app_service,
                    ) by {
                        let oa = if a < i as int { a } else { a + 1 };
                        let ob = if b < i as int { b } else { b + 1 };
                        assert(self.rows.deep_view()[a] == old_rows[oa]);
                        assert(self.rows.deep_view()[b] == old_rows[ob]);
                        assert(!nk_matches(old_rows[ob], old_rows[oa].uuid, old_rows[oa].app_service));
                    }
                }
                Ok(())
            },
        }
    }
}

} // verus!
