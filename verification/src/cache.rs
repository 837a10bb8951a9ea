//! The credential cache: a key-value mirror of the record store, keyed by
//! customer identifier.
//!
//! An entry, when present, holds the complete list of a customer's records
//! as last known to the cache.  Absence of a key is a miss, not an error.
//! An unavailable cache models an unreachable backend: every read misses
//! and every write fails, and the mirror keeps its entries either way.
//!
//! On the wire the key is `"<customer identifier>:nwc"`; `cache_key` builds
//! it, and the key function is injective, so distinct customers never share
//! an entry.

use vstd::prelude::*;
use vstd::string::StringExecFns;

use crate::customer_nwc::{CustomerNwc, NwcView};
use crate::errors::NwcError;

verus! {

/// The wire-format cache key for a customer identifier.
pub open spec fn spec_cache_key(uuid: Seq<char>) -> Seq<char> {
    uuid + ":nwc"@
}

/// Builds the wire-format cache key `"<customer identifier>:nwc"`.
pub fn cache_key(uuid: &String) -> (r: String)
    ensures
        r@ == spec_cache_key(uuid@),
{
    let mut k = uuid.clone();
    k.append(":nwc");
    k
}

/// Distinct customer identifiers get distinct wire-format keys.
pub proof fn lemma_cache_key_injective(a: Seq<char>, b: Seq<char>)
    requires
        spec_cache_key(a) == spec_cache_key(b),
    ensures
        a == b,
{
    assert(spec_cache_key(a).len() == a.len() + ":nwc"@.len());
    assert(spec_cache_key(b).len() == b.len() + ":nwc"@.len());
    assert(a.len() == b.len());
    assert forall|i: int| 0 <= i < a.len() implies a[i] == b[i] by {
        assert(spec_cache_key(a)[i] == a[i]);
        assert(spec_cache_key(b)[i] == b[i]);
    }
    assert(a =~= b);
}

/// Mathematical view of the cache.
pub ghost struct CacheView {
    /// The mirror: customer identifier to that customer's records.
    pub entries: Map<Seq<char>, Seq<NwcView>>,
    /// Whether the backend can currently be reached.
    pub available: bool,
}

/// What `get` returns: the entry, when the cache is reachable and holds the
/// key; a miss otherwise.
pub open spec fn spec_cache_get(c: CacheView, uuid: Seq<char>) -> Option<Seq<NwcView>> {
    if c.available && c.entries.contains_key(uuid) {
        Some(c.entries[uuid])
    } else {
        None
    }
}

/// What a successful `put` leaves behind; an unreachable cache keeps its
/// entries.
pub open spec fn spec_cache_put(c: CacheView, uuid: Seq<char>, records: Seq<NwcView>) -> CacheView {
    if c.available {
        CacheView { entries: c.entries.insert(uuid, records), available: true }
    } else {
        c
    }
}

/// What a successful `remove` leaves behind; an unreachable cache keeps its
/// entries.
pub open spec fn spec_cache_remove(c: CacheView, uuid: Seq<char>) -> CacheView {
    if c.available {
        CacheView { entries: c.entries.remove(uuid), available: true }
    } else {
        c
    }
}

/// The entries, as the map each association list stands for: a later pair
/// wins over an earlier one with the same key.
spec fn entries_map(s: Seq<(Seq<char>, Seq<NwcView>)>) -> Map<Seq<char>, Seq<NwcView>>
    decreases s.len(),
{
    if s.len() == 0 {
        Map::empty()
    } else {
        entries_map(s.drop_last()).insert(s.last().0, s.last().1)
    }
}

/// No two pairs share a key.
spec fn unique_keys(s: Seq<(Seq<char>, Seq<NwcView>)>) -> bool {
    forall|i: int, j: int| 0 <= i < j < s.len() ==> (#[trigger] s[i]).0 != (#[trigger] s[j]).0
}

/// Every entry holds at least one record: absence of the key is what
/// encodes "no records", so an empty list is never stored.
spec fn entries_nonempty(s: Seq<(Seq<char>, Seq<NwcView>)>) -> bool {
    forall|i: int| 0 <= i < s.len() ==> (#[trigger] s[i]).1.len() > 0
}

/// A key is in the map exactly when some pair carries it.
proof fn lemma_entries_map_domain(s: Seq<(Seq<char>, Seq<NwcView>)>, k: Seq<char>)
    ensures
        entries_map(s).contains_key(k) <==> exists|j: int| 0 <= j < s.len() && (#[trigger] s[j]).0
            == k,
    decreases s.len(),
{
    if s.len() > 0 {
        lemma_entries_map_domain(s.drop_last(), k);
        if s.last().0 == k {
            assert((#[trigger] s[s.len() - 1]).0 == k);
        } else if entries_map(s).contains_key(k) {
            let j = choose|j: int| 0 <= j < s.drop_last().len() && (#[trigger] s.drop_last()[j]).0
                == k;
            assert((#[trigger] s[j]).0 == k);
        } else {
            assert forall|j: int| 0 <= j < s.len() implies (#[trigger] s[j]).0 != k by {
                if j < s.len() - 1 {
                    assert(s.drop_last()[j] == s[j]);
                }
            }
        }
    }
}

/// With unique keys, the pair at any index gives the map's value for its
/// key.
proof fn lemma_entries_map_found(s: Seq<(Seq<char>, Seq<NwcView>)>, i: int)
    requires
        unique_keys(s),
        0 <= i < s.len(),
    ensures
        entries_map(s).contains_key(s[i].0),
        entries_map(s)[s[i].0] == s[i].1,
    decreases s.len(),
{
    if i == s.len() - 1 {
    } else {
        assert(s.drop_last()[i] == s[i]);
        assert(unique_keys(s.drop_last())) by {
            assert forall|a: int, b: int| 0 <= a < b < s.drop_last().len() implies (
            #[trigger] s.drop_last()[a]).0 != (#[trigger] s.drop_last()[b]).0 by {
                assert(s.drop_last()[a] == s[a]);
                assert(s.drop_last()[b] == s[b]);
            }
        }
        lemma_entries_map_found(s.drop_last(), i);
        assert(s[i].0 != s[s.len() - 1].0);
    }
}

/// Replacing the pair at an index by one with the same key updates the map
/// at that key.
proof fn lemma_entries_map_update(s: Seq<(Seq<char>, Seq<NwcView>)>, i: int, v: Seq<NwcView>)
    requires
        unique_keys(s),
        0 <= i < s.len(),
    ensures
        entries_map(s.update(i, (s[i].0, v))) =~= entries_map(s).insert(s[i].0, v),
    decreases s.len(),
{
    let t = s.update(i, (s[i].0, v));
    if i == s.len() - 1 {
        assert(t.drop_last() =~= s.drop_last());
        assert(t.last() == (s[i].0, v));
    } else {
        assert(unique_keys(s.drop_last())) by {
            assert forall|a: int, b: int| 0 <= a < b < s.drop_last().len() implies (
            #[trigger] s.drop_last()[a]).0 != (#[trigger] s.drop_last()[b]).0 by {
                assert(s.drop_last()[a] == s[a]);
                assert(s.drop_last()[b] == s[b]);
            }
        }
        lemma_entries_map_update(s.drop_last(), i, v);
        assert(t.drop_last() =~= s.drop_last().update(i, (s[i].0, v))) by {
            assert(s.drop_last()[i] == s[i]);
        }
        assert(t.last() == s.last());
        assert(s[i].0 != s.last().0);
    }
}

/// Appending a pair with a fresh key inserts its value into the map.
proof fn lemma_entries_map_push(
    s: Seq<(Seq<char>, Seq<NwcView>)>,
    k: Seq<char>,
    v: Seq<NwcView>,
)
    ensures
        entries_map(s.push((k, v))) =~= entries_map(s).insert(k, v),
{
    assert(s.push((k, v)).drop_last() =~= s);
    assert(s.push((k, v)).last() == (k, v));
}

/// Removing the pair at an index removes its key from the map, when keys
/// are unique.
proof fn lemma_entries_map_remove(s: Seq<(Seq<char>, Seq<NwcView>)>, i: int)
    requires
        unique_keys(s),
        0 <= i < s.len(),
    ensures
        entries_map(s.remove(i)) =~= entries_map(s).remove(s[i].0),
    decreases s.len(),
{
    assert(unique_keys(s.drop_last())) by {
        assert forall|a: int, b: int| 0 <= a < b < s.drop_last().len() implies (
        #[trigger] s.drop_last()[a]).0 != (#[trigger] s.drop_last()[b]).0 by {
            assert(s.drop_last()[a] == s[a]);
            assert(s.drop_last()[b] == s[b]);
        }
    }
    if i == s.len() - 1 {
        assert(s.remove(i) =~= s.drop_last());
        lemma_entries_map_domain(s.drop_last(), s[i].0);
        assert forall|j: int| 0 <= j < s.drop_last().len() implies (#[trigger] s.drop_last()[j]).0
            != s[i].0 by {
            assert(s.drop_last()[j] == s[j]);
        }
        assert(!entries_map(s.drop_last()).contains_key(s[i].0));
    } else {
        lemma_entries_map_remove(s.drop_last(), i);
        assert(s.remove(i).drop_last() =~= s.drop_last().remove(i)) by {
            assert forall|j: int| 0 <= j < s.remove(i).len() - 1 implies s.remove(i).drop_last()[j]
                == s.drop_last().remove(i)[j] by {}
        }
        assert(s.remove(i).last() == s.last());
        assert(s.drop_last()[i] == s[i]);
        assert(s[i].0 != s.last().0);
    }
}

/// The key-value mirror of the record store.
pub struct CredentialCache {
    entries: Vec<(String, Vec<CustomerNwc>)>,
    available: bool,
}

impl View for CredentialCache {
    type V = CacheView;

    closed spec fn view(&self) -> CacheView {
        CacheView { entries: entries_map(self.entries.deep_view()), available: self.available }
    }
}

/// Finds the entry for a customer identifier, if any.
fn find_key(entries: &Vec<(String, Vec<CustomerNwc>)>, uuid: &String) -> (r: Option<usize>)
    ensures
        match r {
            Some(i) => i < entries.deep_view().len() && entries.deep_view()[i as int].0 == uuid@,
            None => forall|j: int|
                0 <= j < entries.deep_view().len() ==> (#[trigger] entries.deep_view()[j]).0
                    != uuid@,
        },
{
    let n = entries.len();
    let mut i: usize = 0;
    while i < n
        invariant
            i <= n,
            n == entries.deep_view().len(),
            forall|j: int| 0 <= j < i ==> (#[trigger] entries.deep_view()[j]).0 != uuid@,
        decreases n - i,
    {
        let e = &entries[i];
        if e.0 == *uuid {
            return Some(i);
        }
        i = i + 1;
    }
    None
}

/// Clones a list of records; the copy has the same view.
pub fn clone_records(records: &Vec<CustomerNwc>) -> (r: Vec<CustomerNwc>)
    ensures
        r.deep_view() == records.deep_view(),
{
    let r = records.clone();
    proof {
        assert(r.deep_view() =~= records.deep_view());
    }
    r
}

impl CredentialCache {
    /// Well-formedness: no customer identifier owns two entries, and an
    /// entry, when present, is never empty — a customer with no records
    /// simply has no key.  Constructors establish it and every operation
    /// preserves it.
    pub closed spec fn wf(&self) -> bool {
        &&& unique_keys(self.entries.deep_view())
        &&& entries_nonempty(self.entries.deep_view())
    }

    /// A fresh, empty, reachable cache.
    pub fn new() -> (r: CredentialCache)
        ensures
            r.wf(),
            r@ == (CacheView { entries: Map::<Seq<char>, Seq<NwcView>>::empty(), available: true }),
    {
        let r = CredentialCache { entries: Vec::new(), available: true };
        proof {
            assert(r.entries.deep_view() =~= Seq::<(Seq<char>, Seq<NwcView>)>::empty());
        }
        r
    }

    /// Makes the backend reachable or unreachable; the mirror keeps its
    /// entries either way.
    pub fn set_available(&mut self, available: bool)
        requires
            old(self).wf(),
        ensures
            final(self).wf(),
            final(self)@ == (CacheView { entries: old(self)@.entries, available }),
    {
        self.available = available;
    }

    /// Reads the entry for a customer identifier.  Absence of the key and
    /// an unreachable backend are both misses, not errors; a hit is never
    /// an empty list.
    pub fn get(&self, uuid: &String) -> (r: Option<Vec<CustomerNwc>>)
        requires
            self.wf(),
        ensures
            match r {
                Some(v) => spec_cache_get(self@, uuid@) == Some(v.deep_view()) && v@.len() > 0,
                None => spec_cache_get(self@, uuid@) is None,
            },
    {
        if !self.available {
            return None;
        }
        match find_key(&self.entries, uuid) {
            Some(i) => {
                proof {
                    lemma_entries_map_found(self.entries.deep_view(), i as int);
                }
                let e = &self.entries[i];
                Some(clone_records(&e.1))
            },
            None => {
                proof {
                    lemma_entries_map_domain(self.entries.deep_view(), uuid@);
                }
                None
            },
        }
    }

    /// Overwrites the entry for a customer identifier with the given list,
    /// which must be non-empty: a customer with no records is encoded by
    /// the key's absence, never by an empty entry.  An unreachable backend
    /// refuses the write and reports `CacheError`.
    pub fn put(&mut self, uuid: &String, records: Vec<CustomerNwc>) -> (r: Result<(), NwcError>)
        requires
            old(self).wf(),
            records@.len() > 0,
        ensures
            final(self).wf(),
            old(self)@.available ==> r == Ok::<(), NwcError>(()) && final(self)@ == spec_cache_put(
                old(self)@,
                uuid@,
                records.deep_view(),
            ),
            !old(self)@.available ==> r == Err::<(), NwcError>(NwcError::CacheError) && final(self)@
                == old(self)@,
    {
        if !self.available {
            return Err(NwcError::CacheError);
        }
        let ghost old_entries = self.entries.deep_view();
        match find_key(&self.entries, uuid) {
            Some(i) => {
                proof {
                    lemma_entries_map_update(old_entries, i as int, records.deep_view());
                }
                self.entries[i] = (uuid.clone(), records);
                proof {
                    assert(self.entries.deep_view() =~= old_entries.update(
                        i as int,
                        (old_entries[i as int].0, self.entries.deep_view()[i as int].1),
                    ));
                    assert forall|a: int, b: int|
                        0 <= a < b < self.entries.deep_view().len() implies (
                    #[trigger] self.entries.deep_view()[a]).0 != (
                    #[trigger] self.entries.deep_view()[b]).0 by {
                        assert(self.entries.deep_view()[a].0 == old_entries[a].0);
                        assert(self.entries.deep_view()[b].0 == old_entries[b].0);
                    }
                }
                Ok(())
            },
            None => {
                proof {
                    lemma_entries_map_push(old_entries, uuid@, records.deep_view());
                }
                self.entries.push((uuid.clone(), records));
                proof {
                    assert(self.entries.deep_view() =~= old_entries.push(
                        (uuid@, self.entries.deep_view()[old_entries.len() as int].1),
                    ));
                    assert forall|a: int, b: int|
                        0 <= a < b < self.entries.deep_view().len() implies (
                    #[trigger] self.entries.deep_view()[a]).0 != (
                    #[trigger] self.entries.deep_view()[b]).0 by {
                        if b < old_entries.len() {
                            assert(self.entries.deep_view()[a].0 == old_entries[a].0);
                            assert(self.entries.deep_view()[b].0 == old_entries[b].0);
                        } else {
                            assert(self.entries.deep_view()[a].0 == old_entries[a].0);
                            assert(old_entries[a].0 != uuid@);
                        }
                    }
                }
                Ok(())
            },
        }
    }

    /// Writes the entry if the cache is reachable and swallows a refused
    /// write: cache population is best-effort and its failure is non-fatal
    /// to the caller.
    pub fn put_best_effort(&mut self, uuid: &String, records: Vec<CustomerNwc>)
        requires
            old(self).wf(),
            records@.len() > 0,
        ensures
            final(self).wf(),
            final(self)@ == spec_cache_put(old(self)@, uuid@, records.deep_view()),
    {
        match self.put(uuid, records) {
            Ok(_) => {},
            Err(_) => {},
        }
    }

    /// Drops the entry if the cache is reachable and swallows a refused
    /// write, as `put_best_effort` does.
    pub fn remove_best_effort(&mut self, uuid: &String)
        requires
            old(self).wf(),
        ensures
            final(self).wf(),
            final(self)@ == spec_cache_remove(old(self)@, uuid@),
    {
        match self.remove(uuid) {
            Ok(_) => {},
            Err(_) => {},
        }
    }

    /// Drops the entry for a customer identifier; dropping an absent entry
    /// succeeds.  An unreachable backend refuses the write and reports
    /// `CacheError`.
    pub fn remove(&mut self, uuid: &String) -> (r: Result<(), NwcError>)
        requires
            old(self).wf(),
        ensures
            final(self).wf(),
            old(self)@.available ==> r == Ok::<(), NwcError>(()) && final(self)@
                == spec_cache_remove(old(self)@, uuid@),
            !old(self)@.available ==> r == Err::<(), NwcError>(NwcError::CacheError) && final(self)@
                == old(self)@,
    {
        if !self.available {
            return Err(NwcError::CacheError);
        }
        let ghost old_entries = self.entries.deep_view();
        match find_key(&self.entries, uuid) {
            Some(i) => {
                proof {
                    lemma_entries_map_remove(old_entries, i as int);
                }
                self.entries.remove(i);
                proof {
                    assert(self.entries.deep_view() =~= old_entries.remove(i as int));
                    assert forall|a: int, b: int|
                        0 <= a < b < self.entries.deep_view().len() implies (
                    #[trigger] self.entries.deep_view()[a]).0 != (
                    #[trigger] self.entries.deep_view()[b]).0 by {
                        let oa = if a < i as int {
                            a
                        } else {
                            a + 1
                        };
                        let ob = if b < i as int {
                            b
                        } else {
                            b + 1
                        };
                        assert(self.entries.deep_view()[a] == old_entries[oa]);
                        assert(self.entries.deep_view()[b] == old_entries[ob]);
                    }
                }
                Ok(())
            },
            None => {
                proof {
                    lemma_entries_map_domain(old_entries, uuid@);
                    assert(entries_map(old_entries).remove(uuid@) =~= entries_map(old_entries));
                }
                Ok(())
            },
        }
    }
}

} // verus!
