//! The analytics server: its API, its database settings and where it listens.

pub mod api;
pub mod db;

use vstd::prelude::*;

verus! {

/// Where the server listens when no address is configured: port 443 for
/// https, port 80 for http, on all interfaces.
pub open spec fn default_bind(https: bool) -> Seq<char> {
    if https {
        "0.0.0.0:443"@
    } else {
        "0.0.0.0:80"@
    }
}

/// The address to listen on: the configured one (`HTTPS_BIND` for https,
/// `HTTP_BIND` for http), or the default.
pub fn bind_address(https: bool, configured: Option<String>) -> (addr: String)
    ensures
        addr@ == match configured {
            Some(a) => a@,
            None => default_bind(https),
        },
{
    match configured {
        Some(a) => a,
        None => if https {
            "0.0.0.0:443".to_owned()
        } else {
            "0.0.0.0:80".to_owned()
        },
    }
}

} // verus!
