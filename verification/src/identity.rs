//! Selection of a request's identity token from its address headers.
//!
//! The token is opaque to the rest of the system; all that matters here is
//! the preference order among the headers that may carry it.

use vstd::prelude::*;

verus! {

/// The identity chosen from the three address headers, in preference
/// order: `Forwarded` first, then `X-Forwarded-For`, then `Host`.
pub open spec fn chosen_identity(
    forwarded: Option<Seq<char>>,
    x_forwarded_for: Option<Seq<char>>,
    host: Option<Seq<char>>,
) -> Option<Seq<char>> {
    match forwarded {
        Some(f) => Some(f),
        None => match x_forwarded_for {
            Some(x) => Some(x),
            None => host,
        },
    }
}

/// Pick the identity token for a request from the values of its three
/// address headers, in the preference order above.
pub fn remote_identity(
    forwarded: Option<String>,
    x_forwarded_for: Option<String>,
    host: Option<String>,
) -> (r: Option<String>)
    ensures
        r.deep_view() == chosen_identity(
            forwarded.deep_view(),
            x_forwarded_for.deep_view(),
            host.deep_view(),
        ),
{
    match forwarded {
        Some(f) => Some(f),
        None => match x_forwarded_for {
            Some(x) => Some(x),
            None => host,
        },
    }
}

} // verus!
