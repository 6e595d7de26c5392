//! Where a write request comes from, as told by the
//! `X-Cedar-Write-Origin` request header.

use vstd::prelude::*;
use crate::text::str_eq;

verus! {

/// The header value that marks a write made by the database entity sync.
pub open spec fn db_entity_sync_header() -> Seq<char> {
    "db-entity-sync"@
}

/// Origin of a write request.
#[derive(Debug, Clone, Copy, PartialEq, Eq, Structural)]
pub enum WriteOrigin {
    Default,
    DbEntitySync,
}

impl WriteOrigin {
    /// Whether the write comes from the database entity sync.
    pub fn is_db_entity_sync(&self) -> (r: bool)
        ensures
            r == (*self is DbEntitySync),
    {
        match self {
            WriteOrigin::DbEntitySync => true,
            WriteOrigin::Default => false,
        }
    }

    /// The origin named by the value of the `X-Cedar-Write-Origin` header,
    /// if the request carries one. Only the exact value `db-entity-sync`
    /// selects the entity sync; any other value, or none, is the default.
    pub fn from_header(value: Option<&str>) -> (r: WriteOrigin)
        ensures
            (r is DbEntitySync) <==> (value matches Some(v) && v@ == db_entity_sync_header()),
    {
        match value {
            Some(v) => {
                if str_eq(v, "db-entity-sync") {
                    WriteOrigin::DbEntitySync
                } else {
                    WriteOrigin::Default
                }
            },
            None => WriteOrigin::Default,
        }
    }
}

} // verus!
