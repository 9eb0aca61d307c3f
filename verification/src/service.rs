//! The resolution and registration service: domain whitelisting, destination
//! parsing, token issuance and the orchestration of repository calls. Every
//! operation completes, returns a definitive "not found", or surfaces its
//! failure; nothing is retried.

use vstd::prelude::*;
use vstd::string::*;
use crate::destination::{DestinationPaymentAddress, DestinationView, parse_spec, url_spec};
use crate::repository::{
    AddError, IPaymentAddressRepository, RecordView, RemoveError, RemoveOutcome, StorageError,
};
use crate::strutil::{clone_string_vec, str_eq};
use rand::distributions::DistString;

verus! {

/// Returned once at registration: the composed address text and the
/// authentication token that later authorizes removal. The token is never
/// retrievable again; losing it leaves the record immutable to its owner.
#[derive(Debug)]
pub struct RegisterResponse {
    pub lnaddr: String,
    pub authentication_token: String,
}

/// Why a registration was refused.
#[derive(Debug, Clone, Copy, PartialEq, Eq, Structural)]
pub enum RegisterError {
    /// The domain is not in the configured set this instance serves.
    UnsupportedDomain,
    /// The destination text parses as neither encoding.
    InvalidDestination,
    /// The key `(domain, username)` already exists.
    AlreadyRegistered,
    /// The storage backend failed.
    Storage,
}

/// Length of an issued authentication token.
pub const TOKEN_LENGTH: usize = 20;

/// The token alphabet: ASCII alphanumeric.
pub open spec fn is_token_char(c: char) -> bool {
    ('0' <= c && c <= '9') || ('a' <= c && c <= 'z') || ('A' <= c && c <= 'Z')
}

/// A well-formed authentication token: fixed length, alphanumeric alphabet.
pub open spec fn token_wf(t: Seq<char>) -> bool {
    t.len() == TOKEN_LENGTH && (forall|i: int| 0 <= i < t.len() ==> is_token_char(t[i]))
}

/// Relies on `rand::distributions::Alphanumeric::sample_string` with
/// `rand::thread_rng`: `len` characters drawn independently and uniformly
/// from `[0-9A-Za-z]`, from a cryptographically secure generator. Nothing is
/// assumed about which characters come back.
#[verifier::external_body]
fn sample_alphanumeric(len: usize) -> (r: String)
    ensures
        r@.len() == len as int,
        forall|i: int| 0 <= i < r@.len() ==> is_token_char(r@[i]),
{
    rand::distributions::Alphanumeric.sample_string(&mut rand::thread_rng(), len)
}

/// What a lookup finds in a stored table.
pub open spec fn lookup_destination(
    m: Map<(Seq<char>, Seq<char>), RecordView>,
    domain: Seq<char>,
    username: Seq<char>,
) -> Option<DestinationView> {
    if m.contains_key((domain, username)) {
        Some(m[(domain, username)].destination)
    } else {
        None
    }
}

/// Whether a registration is accepted, and if not, why: the domain gate is
/// checked first, then the destination text, then uniqueness of the key.
pub open spec fn register_decision(
    domains: Seq<Seq<char>>,
    m: Map<(Seq<char>, Seq<char>), RecordView>,
    domain: Seq<char>,
    username: Seq<char>,
    text: Seq<char>,
) -> Result<(), RegisterError> {
    if !domains.contains(domain) {
        Err(RegisterError::UnsupportedDomain)
    } else if parse_spec(text) is None {
        Err(RegisterError::InvalidDestination)
    } else if m.contains_key((domain, username)) {
        Err(RegisterError::AlreadyRegistered)
    } else {
        Ok(())
    }
}

/// What a removal returns: absence is a no-op, a matching token removes, a
/// mismatch is refused.
pub open spec fn remove_decision(
    m: Map<(Seq<char>, Seq<char>), RecordView>,
    domain: Seq<char>,
    username: Seq<char>,
    token: Seq<char>,
) -> Result<RemoveOutcome, RemoveError> {
    if !m.contains_key((domain, username)) {
        Ok(RemoveOutcome::NotFound)
    } else if m[(domain, username)].authentication_token == token {
        Ok(RemoveOutcome::Removed)
    } else {
        Err(RemoveError::Unauthorized)
    }
}

/// The stored table after a removal.
pub open spec fn remove_post(
    m: Map<(Seq<char>, Seq<char>), RecordView>,
    domain: Seq<char>,
    username: Seq<char>,
    token: Seq<char>,
) -> Map<(Seq<char>, Seq<char>), RecordView> {
    if remove_decision(m, domain, username, token) == Ok::<RemoveOutcome, RemoveError>(
        RemoveOutcome::Removed,
    ) {
        m.remove((domain, username))
    } else {
        m
    }
}

/// The service, over any conforming repository: the configured domain list
/// is immutable after construction; all state lives in the repository.
pub struct DirectLnaddrService<R: IPaymentAddressRepository> {
    repo: R,
    domains: Vec<String>,
}

impl<R: IPaymentAddressRepository> DirectLnaddrService<R> {
    /// The configured domain list.
    pub closed spec fn domains_view(&self) -> Seq<Seq<char>> {
        self.domains.deep_view()
    }

    /// The stored table, as the repository presents it.
    pub closed spec fn repo_view(&self) -> Map<(Seq<char>, Seq<char>), RecordView> {
        self.repo.repo_map()
    }

    /// Structural validity of the underlying store.
    pub closed spec fn inv(&self) -> bool {
        self.repo.inv()
    }

    /// Whether the underlying store is free of backend failures.
    pub closed spec fn storage_reliable(&self) -> bool {
        self.repo.storage_reliable()
    }

    pub fn new(repo: R, domains: Vec<String>) -> (r: Self)
        requires
            repo.inv(),
        ensures
            r.inv(),
            r.domains_view() == domains.deep_view(),
            r.repo_view() == repo.repo_map(),
            r.storage_reliable() == repo.storage_reliable(),
    {
        DirectLnaddrService { repo, domains }
    }

    /// The statically configured domains this instance serves, in order;
    /// never queries storage.
    pub fn list_domains(&self) -> (r: Vec<String>)
        ensures
            r.deep_view() == self.domains_view(),
    {
        clone_string_vec(&self.domains)
    }

    fn contains_domain(&self, domain: &str) -> (r: bool)
        ensures
            r == self.domains_view().contains(domain@),
    {
        let mut i: usize = 0;
        while i < self.domains.len()
            invariant
                i <= self.domains.len(),
                forall|j: int| 0 <= j < i ==> self.domains@[j]@ != domain@,
            decreases self.domains.len() - i,
        {
            if str_eq(self.domains[i].as_str(), domain) {
                proof {
                    assert(self.domains.deep_view()[i as int] == domain@);
                }
                return true;
            }
            i += 1;
        }
        proof {
            assert forall|j: int|
                0 <= j < self.domains.deep_view().len() implies self.domains.deep_view()[j]
                != domain@ by {
                assert(self.domains.deep_view()[j] == self.domains@[j]@);
            }
        }
        false
    }

    /// Pass-through lookup of the stored destination; absence is "not
    /// found", never an error.
    pub fn get_destination(&self, domain: &str, username: &str) -> (r: Result<
        Option<DestinationPaymentAddress>,
        StorageError,
    >)
        requires
            self.inv(),
        ensures
            self.storage_reliable() ==> r is Ok,
            match r {
                Ok(Some(d)) => lookup_destination(self.repo_view(), domain@, username@) == Some(
                    d@,
                ),
                Ok(None) => lookup_destination(self.repo_view(), domain@, username@) is None,
                Err(_) => true,
            },
    {
        match self.repo.get_payment_address(domain, username) {
            Ok(Some(rec)) => Ok(Some(rec.destination)),
            Ok(None) => Ok(None),
            Err(e) => Err(e),
        }
    }

    /// The endpoint a stored address's manifest is fetched from: the stored
    /// destination resolved to its URL. Absence is "not found"; no request
    /// is made here.
    pub fn manifest_url(&self, domain: &str, username: &str) -> (r: Result<
        Option<String>,
        StorageError,
    >)
        requires
            self.inv(),
        ensures
            self.storage_reliable() ==> r is Ok,
            match r {
                Ok(Some(u)) => lookup_destination(self.repo_view(), domain@, username@) matches
                    Some(d) && u@ == url_spec(d),
                Ok(None) => lookup_destination(self.repo_view(), domain@, username@) is None,
                Err(_) => true,
            },
    {
        match self.repo.get_payment_address(domain, username) {
            Ok(Some(rec)) => Ok(Some(rec.destination.url())),
            Ok(None) => Ok(None),
            Err(e) => Err(e),
        }
    }

    /// Register `username@domain` for a destination text: gate the domain,
    /// parse the text, issue a fresh random token, persist, and return the
    /// composed address with the token.
    pub fn register_lnaddr(&mut self, domain: &str, username: &str, destination: &str) -> (r:
        Result<RegisterResponse, RegisterError>)
        requires
            old(self).inv(),
        ensures
            final(self).inv(),
            final(self).domains_view() == old(self).domains_view(),
            final(self).storage_reliable() == old(self).storage_reliable(),
            old(self).storage_reliable() ==> r != Err::<RegisterResponse, RegisterError>(
                RegisterError::Storage,
            ),
            match r {
                Ok(resp) => register_decision(
                    old(self).domains_view(),
                    old(self).repo_view(),
                    domain@,
                    username@,
                    destination@,
                ) == Ok::<(), RegisterError>(()) && resp.lnaddr@ == username@ + seq!['@'] + domain@
                    && token_wf(resp.authentication_token@) && (parse_spec(destination@) matches
                    Some(d) && final(self).repo_view() == old(self).repo_view().insert(
                    (domain@, username@),
                    (RecordView {
                        destination: d,
                        authentication_token: resp.authentication_token@,
                    }),
                )),
                Err(RegisterError::Storage) => old(self).domains_view().contains(domain@)
                    && parse_spec(destination@) is Some && final(self).repo_view() == old(self).repo_view(),
                Err(e) => register_decision(
                    old(self).domains_view(),
                    old(self).repo_view(),
                    domain@,
                    username@,
                    destination@,
                ) == Err::<(), RegisterError>(e) && final(self).repo_view() == old(self).repo_view(),
            },
    {
        if !self.contains_domain(domain) {
            return Err(RegisterError::UnsupportedDomain);
        }
        let dest = match DestinationPaymentAddress::parse(destination) {
            Ok(d) => d,
            Err(_) => {
                return Err(RegisterError::InvalidDestination);
            },
        };
        let token = sample_alphanumeric(TOKEN_LENGTH);
        match self.repo.add_payment_address(domain, username, dest, token.as_str()) {
            Ok(()) => {
                let mut lnaddr = username.to_owned();
                lnaddr.append("@");
                lnaddr.append(domain);
                proof {
                    reveal_strlit("@");
                    assert(("@")@ =~= seq!['@']);
                    assert(lnaddr@ =~= username@ + seq!['@'] + domain@);
                }
                Ok(RegisterResponse { lnaddr, authentication_token: token })
            },
            Err(AddError::AlreadyRegistered) => Err(RegisterError::AlreadyRegistered),
            Err(AddError::Storage) => Err(RegisterError::Storage),
        }
    }

    /// Remove `username@domain`, authorized by the token issued at
    /// registration: the repository's atomic check-and-delete does the work,
    /// the service adds no further authorization logic.
    pub fn remove_lnaddr(&mut self, domain: &str, username: &str, authentication_token: &str) -> (r:
        Result<RemoveOutcome, RemoveError>)
        requires
            old(self).inv(),
        ensures
            final(self).inv(),
            final(self).domains_view() == old(self).domains_view(),
            final(self).storage_reliable() == old(self).storage_reliable(),
            old(self).storage_reliable() ==> r != Err::<RemoveOutcome, RemoveError>(
                RemoveError::Storage,
            ),
            r == Err::<RemoveOutcome, RemoveError>(RemoveError::Storage) ==> final(self).repo_view() == old(self).repo_view(),
            r != Err::<RemoveOutcome, RemoveError>(RemoveError::Storage) ==> r == remove_decision(
                old(self).repo_view(),
                domain@,
                username@,
                authentication_token@,
            ) && final(self).repo_view() == remove_post(
                old(self).repo_view(),
                domain@,
                username@,
                authentication_token@,
            ),
    {
        self.repo.remove_payment_address(domain, username, authentication_token)
    }
}

} // verus!
