//! Where the server's database lies.

use vstd::prelude::*;

verus! {

/// The database that the server uses when none is configured.
pub open spec fn default_db_uri() -> Seq<char> {
    "sqlite:db/analytics.db"@
}

/// The database to connect to: the configured one (`DATABASE_URL`), or the
/// default.
pub fn get_db_uri(configured: Option<String>) -> (uri: String)
    ensures
        uri@ == match configured {
            Some(u) => u@,
            None => default_db_uri(),
        },
{
    match configured {
        Some(u) => u,
        None => "sqlite:db/analytics.db".to_owned(),
    }
}

/// The database that stands in, in memory, when the configured one cannot be
/// opened.
pub fn backup_db_uri() -> (uri: String)
    ensures
        uri@ == "sqlite::memory:"@,
{
    "sqlite::memory:".to_owned()
}

} // verus!
