//! Laws relating the service's operations across calls, stated over the
//! same decision functions and stored-table abstraction that the executable
//! operations are specified with. The round-trip law of the destination
//! model stands beside the model itself.

use vstd::prelude::*;
use crate::repository::{RecordView, RemoveError, RemoveOutcome};
use crate::service::{
    RegisterError, lookup_destination, register_decision, remove_decision, remove_post,
};

verus! {

/// Domain gate: registering under a domain outside the configured list is
/// always refused with `UnsupportedDomain`, whatever the destination text
/// and whatever the store holds.
pub proof fn lemma_register_unsupported_domain(
    domains: Seq<Seq<char>>,
    m: Map<(Seq<char>, Seq<char>), RecordView>,
    domain: Seq<char>,
    username: Seq<char>,
    text: Seq<char>,
)
    requires
        !domains.contains(domain),
    ensures
        register_decision(domains, m, domain, username, text) == Err::<(), RegisterError>(
            RegisterError::UnsupportedDomain,
        ),
{
}

/// Uniqueness: once a key is registered, registering it again without an
/// intervening removal is refused with `AlreadyRegistered` — and by the
/// registration contract a refused call leaves the store unchanged, so the
/// first record is unaffected.
pub proof fn lemma_register_twice_fails(
    domains: Seq<Seq<char>>,
    m: Map<(Seq<char>, Seq<char>), RecordView>,
    domain: Seq<char>,
    username: Seq<char>,
    text: Seq<char>,
    rec: RecordView,
)
    requires
        register_decision(domains, m, domain, username, text) == Ok::<(), RegisterError>(()),
    ensures
        register_decision(domains, m.insert((domain, username), rec), domain, username, text)
            == Err::<(), RegisterError>(RegisterError::AlreadyRegistered),
{
}

/// Idempotent removal: after a removal succeeds, removing again with the
/// same token is the no-op "not found" outcome — never `Unauthorized` — and
/// changes nothing.
pub proof fn lemma_remove_idempotent(
    m: Map<(Seq<char>, Seq<char>), RecordView>,
    domain: Seq<char>,
    username: Seq<char>,
    token: Seq<char>,
)
    requires
        remove_decision(m, domain, username, token) == Ok::<RemoveOutcome, RemoveError>(
            RemoveOutcome::Removed,
        ),
    ensures
        remove_decision(remove_post(m, domain, username, token), domain, username, token)
            == Ok::<RemoveOutcome, RemoveError>(RemoveOutcome::NotFound),
        remove_post(remove_post(m, domain, username, token), domain, username, token)
            == remove_post(m, domain, username, token),
{
}

/// Authorization: a removal with a mismatched token is refused with
/// `Unauthorized`, the store is untouched, and a subsequent lookup of the
/// key still finds the original destination.
pub proof fn lemma_remove_unauthorized(
    m: Map<(Seq<char>, Seq<char>), RecordView>,
    domain: Seq<char>,
    username: Seq<char>,
    token: Seq<char>,
)
    requires
        m.contains_key((domain, username)),
        m[(domain, username)].authentication_token != token,
    ensures
        remove_decision(m, domain, username, token) == Err::<RemoveOutcome, RemoveError>(
            RemoveError::Unauthorized,
        ),
        remove_post(m, domain, username, token) == m,
        lookup_destination(remove_post(m, domain, username, token), domain, username) == Some(
            m[(domain, username)].destination,
        ),
{
}

} // verus!
