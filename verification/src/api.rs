//! Request-level helpers for the data-access functions: pagination
//! defaulting and the mapping from statement failures to the errors the
//! surrounding API surfaces.

use vstd::prelude::*;
use vstd::string::StrSliceExecFns;
use vstd::string::StringExecFns;

verus! {

/// The page `limit` used when the caller leaves it unset.
pub const DEFAULT_PAGE_LIMIT: i64 = 20;

/// The page `offset` used when the caller leaves it unset.
pub const DEFAULT_PAGE_OFFSET: i64 = 0;

/// Optional pagination parameters as a listing request carries them.
pub struct Pagination {
    pub limit: Option<i64>,
    pub offset: Option<i64>,
}

impl Pagination {
    /// The limit a listing statement actually uses.
    pub open spec fn spec_limit(self) -> int {
        match self.limit {
            Some(l) => l as int,
            None => DEFAULT_PAGE_LIMIT as int,
        }
    }

    /// The offset a listing statement actually uses.
    pub open spec fn spec_offset(self) -> int {
        match self.offset {
            Some(o) => o as int,
            None => DEFAULT_PAGE_OFFSET as int,
        }
    }

    /// The requested limit, or the default when unset.
    pub fn effective_limit(&self) -> (l: i64)
        ensures
            l == self.spec_limit(),
    {
        match self.limit {
            Some(l) => l,
            None => DEFAULT_PAGE_LIMIT,
        }
    }

    /// The requested offset, or the default when unset.
    pub fn effective_offset(&self) -> (o: i64)
        ensures
            o == self.spec_offset(),
    {
        match self.offset {
            Some(o) => o,
            None => DEFAULT_PAGE_OFFSET,
        }
    }
}

/// A statement failure as this layer sees it: the lookup matched no row, or
/// the driver reported some other error, described by its message.
pub enum DbFailure {
    RowNotFound,
    Other(String),
}

/// The error surfaced to the surrounding API: a specific not-found response
/// only when a lookup intentionally returned zero rows, a generic database
/// error otherwise.
pub enum AppError {
    NotFound(String),
    DatabaseError(String),
}

/// The message a missing settlement is reported with.
pub open spec fn spec_settlement_not_found_msg(id: Seq<char>) -> Seq<char> {
    "Settlement "@ + id + " not found"@
}

/// Render the message a missing settlement is reported with.
pub fn settlement_not_found_msg(id: &String) -> (m: String)
    ensures
        m@ == spec_settlement_not_found_msg(id@),
{
    let mut m = "Settlement ".to_owned();
    m.append(id.as_str());
    m.append(" not found");
    proof {
        assert(m@ =~= spec_settlement_not_found_msg(id@));
    }
    m
}

/// Map a settlement-lookup failure to the API error: a lookup that matched
/// no row becomes the specific not-found error carrying the settlement's id;
/// every other failure becomes the generic database error carrying the
/// driver's message.
pub fn settlement_lookup_error(id: &String, failure: DbFailure) -> (e: AppError)
    ensures
        failure is RowNotFound ==> (e matches AppError::NotFound(m)
            && m@ == spec_settlement_not_found_msg(id@)),
        failure matches DbFailure::Other(msg) ==> (e matches AppError::DatabaseError(m)
            && m@ == msg@),
{
    match failure {
        DbFailure::RowNotFound => AppError::NotFound(settlement_not_found_msg(id)),
        DbFailure::Other(msg) => AppError::DatabaseError(msg),
    }
}

} // verus!
