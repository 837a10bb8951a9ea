//! Error taxonomy of the credential service.
//!
//! The record store reports `RowNotFound`, `Duplicate` (a natural-key
//! conflict) or `Database` (any other backend failure).  The service maps
//! those onto the caller-visible kinds: `NotFound`, `DuplicateEntry`,
//! `StoreError` and `CacheError`.

use vstd::prelude::*;
use vstd::string::StrSliceExecFns;

verus! {

/// Does the text contain the word as a contiguous run of characters?
pub open spec fn spec_contains_word(text: Seq<char>, word: Seq<char>) -> bool {
    exists|i: int|
        0 <= i && i + word.len() <= text.len() && #[trigger] text.subrange(i, i + word.len())
            == word
}

/// Is the word exactly the run of characters starting at `at`?
fn word_matches_at(text: &str, word: &str, at: usize, n: usize, m: usize) -> (r: bool)
    requires
        n == text@.len(),
        m == word@.len(),
        at + m <= n,
    ensures
        r == (text@.subrange(at as int, at as int + m as int) == word@),
{
    let mut j: usize = 0;
    while j < m
        invariant
            j <= m,
            at + m <= n,
            n == text@.len(),
            m == word@.len(),
            forall|k: int| 0 <= k < j ==> text@[at + k] == word@[k],
        decreases m - j,
    {
        if text.get_char(at + j) != word.get_char(j) {
            proof {
                assert(text@.subrange(at as int, at as int + m as int)[j as int] == text@[at + j]);
            }
            return false;
        }
        j = j + 1;
    }
    proof {
        assert(text@.subrange(at as int, at as int + m as int) =~= word@);
    }
    true
}

/// Scans the text for the word, character by character.
pub fn str_contains_word(text: &str, word: &str) -> (r: bool)
    ensures
        r == spec_contains_word(text@, word@),
{
    let n = text.unicode_len();
    let m = word.unicode_len();
    if m > n {
        return false;
    }
    if m == 0 {
        proof {
            assert(text@.subrange(0, 0 + word@.len() as int) =~= word@);
            assert(spec_contains_word(text@, word@));
        }
        return true;
    }
    let mut i: usize = 0;
    while i <= n - m
        invariant
            1 <= m <= n,
            n == text@.len(),
            m == word@.len(),
            i <= n - m + 1,
            forall|k: int| 0 <= k < i ==> #[trigger] text@.subrange(k, k + m as int) != word@,
        decreases n - m - i + 1,
    {
        if word_matches_at(text, word, i, n, m) {
            return true;
        }
        i = i + 1;
    }
    false
}

/// Failure of a record-store operation.
#[derive(Clone, Copy, Debug, PartialEq, Eq, Structural)]
pub enum StoreError {
    /// No row matches the given key.
    RowNotFound,
    /// An insert collided with an existing natural key.
    Duplicate,
    /// Any other backend failure (connectivity, timeout, exhausted ids).
    Database,
}

/// Caller-visible failure of a service operation.
#[derive(Clone, Copy, Debug, PartialEq, Eq, Structural)]
pub enum NwcError {
    /// No record matches the request.
    NotFound,
    /// A create collided with an existing (customer, application-service) key.
    DuplicateEntry,
    /// The record store failed for another reason.
    StoreError,
    /// The cache was unavailable or refused a write.
    CacheError,
}

impl NwcError {
    /// The stable message reported to callers for this error kind.
    pub fn message(&self) -> (r: &'static str)
        ensures
            *self == NwcError::NotFound ==> r@ == "nwc not found"@,
            *self == NwcError::DuplicateEntry ==> r@ == "duplicate entry"@,
            *self == NwcError::StoreError ==> r@ == "database error"@,
            *self == NwcError::CacheError ==> r@ == "cache error"@,
    {
        match self {
            NwcError::NotFound => "nwc not found",
            NwcError::DuplicateEntry => "duplicate entry",
            NwcError::StoreError => "database error",
            NwcError::CacheError => "cache error",
        }
    }

    /// The HTTP status code the transport layer answers with for this kind.
    pub fn status_code(&self) -> (r: u16)
        ensures
            r == self.spec_status_code(),
    {
        match self {
            NwcError::NotFound => 404,
            NwcError::DuplicateEntry => 400,
            NwcError::StoreError => 500,
            NwcError::CacheError => 500,
        }
    }

    pub open spec fn spec_status_code(&self) -> u16 {
        match self {
            NwcError::NotFound => 404,
            NwcError::DuplicateEntry => 400,
            NwcError::StoreError => 500,
            NwcError::CacheError => 500,
        }
    }
}

/// How a create maps a store failure onto a caller-visible kind.
pub open spec fn spec_create_error(e: StoreError) -> NwcError {
    match e {
        StoreError::RowNotFound => NwcError::StoreError,
        StoreError::Duplicate => NwcError::DuplicateEntry,
        StoreError::Database => NwcError::StoreError,
    }
}

/// Maps a store failure during create onto the caller-visible kind: a
/// natural-key conflict is a `DuplicateEntry`; everything else, a
/// missing-row report included, is a `StoreError` — an insert owes the
/// caller a row, so not finding one is a backend failure, not a
/// `NotFound`.
pub fn create_error(e: StoreError) -> (r: NwcError)
    ensures
        r == spec_create_error(e),
{
    match e {
        StoreError::RowNotFound => NwcError::StoreError,
        StoreError::Duplicate => NwcError::DuplicateEntry,
        StoreError::Database => NwcError::StoreError,
    }
}

/// How a raw backend failure during create, given as plain facts about
/// it, maps onto a caller-visible kind.
pub open spec fn spec_classify_create_failure(
    row_not_found: bool,
    is_database: bool,
    message: Seq<char>,
) -> NwcError {
    if !row_not_found && is_database && spec_contains_word(message, "duplicate"@) {
        NwcError::DuplicateEntry
    } else {
        NwcError::StoreError
    }
}

/// Maps a raw backend failure during create onto the caller-visible kind:
/// a database failure whose message mentions `duplicate` is a natural-key
/// conflict, anything else — a missing-row report included — is a
/// `StoreError`, as an insert owes the caller a row.
pub fn classify_create_failure(row_not_found: bool, is_database: bool, message: &str) -> (r:
    NwcError)
    ensures
        r == spec_classify_create_failure(row_not_found, is_database, message@),
{
    if !row_not_found && is_database && str_contains_word(message, "duplicate") {
        NwcError::DuplicateEntry
    } else {
        NwcError::StoreError
    }
}

/// Maps a raw backend failure during read, update or delete onto the
/// caller-visible kind: a missing row is `NotFound`, anything else a
/// `StoreError`.
pub fn classify_lookup_failure(row_not_found: bool) -> (r: NwcError)
    ensures
        row_not_found ==> r == NwcError::NotFound,
        !row_not_found ==> r == NwcError::StoreError,
{
    if row_not_found {
        NwcError::NotFound
    } else {
        NwcError::StoreError
    }
}

/// How read, update and delete map a store failure onto a caller-visible
/// kind.
pub open spec fn spec_lookup_error(e: StoreError) -> NwcError {
    match e {
        StoreError::RowNotFound => NwcError::NotFound,
        StoreError::Duplicate => NwcError::StoreError,
        StoreError::Database => NwcError::StoreError,
    }
}

/// Maps a store failure during read, update or delete onto the
/// caller-visible kind: a missing row is `NotFound`, anything else is a
/// `StoreError`.
pub fn lookup_error(e: StoreError) -> (r: NwcError)
    ensures
        r == spec_lookup_error(e),
{
    match e {
        StoreError::RowNotFound => NwcError::NotFound,
        StoreError::Duplicate => NwcError::StoreError,
        StoreError::Database => NwcError::StoreError,
    }
}

} // verus!
