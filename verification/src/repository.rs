//! The address repository: a durable key-value store from `(domain,
//! username)` to a destination and the authentication secret issued at
//! registration. The interface is polymorphic over the storage backend; its
//! behaviour is stated against a map abstraction of the stored table.

use vstd::prelude::*;
use crate::destination::{DestinationPaymentAddress, DestinationView};

verus! {

/// A persisted payment-address record. The timestamps are set by the
/// repository, never by the caller.
#[derive(Debug)]
pub struct PaymentAddress {
    pub username: String,
    pub domain: String,
    pub destination: DestinationPaymentAddress,
    pub authentication_token: String,
    pub created_at: u64,
    pub updated_at: u64,
}

/// What the store remembers under a key, at the specification level.
pub struct RecordView {
    pub destination: DestinationView,
    pub authentication_token: Seq<char>,
}

/// The key a record is stored under.
pub open spec fn record_key(rec: PaymentAddress) -> (Seq<char>, Seq<char>) {
    (rec.domain@, rec.username@)
}

/// The stored content of a record.
pub open spec fn record_view(rec: PaymentAddress) -> RecordView {
    RecordView { destination: rec.destination@, authentication_token: rec.authentication_token@ }
}

/// A backend failure: connectivity or any constraint violation other than
/// the expected uniqueness check. Surfaced to the caller, never retried.
#[derive(Debug, Clone, Copy, PartialEq, Eq, Structural)]
pub struct StorageError;

/// Why an insert was refused.
#[derive(Debug, Clone, Copy, PartialEq, Eq, Structural)]
pub enum AddError {
    /// The key already exists: the insert is rejected, never overwritten.
    AlreadyRegistered,
    /// The backend failed.
    Storage,
}

/// What an authorized removal found.
#[derive(Debug, Clone, Copy, PartialEq, Eq, Structural)]
pub enum RemoveOutcome {
    /// The record existed, the token matched, and the record is gone.
    Removed,
    /// No record existed: removal of a nonexistent address is a no-op.
    NotFound,
}

/// Why a removal failed.
#[derive(Debug, Clone, Copy, PartialEq, Eq, Structural)]
pub enum RemoveError {
    /// The record exists but the token does not match; nothing changed.
    Unauthorized,
    /// The backend failed.
    Storage,
}

/// The capability set of an address store. `remove` performs the token
/// comparison and the delete as one atomic unit: no step of another
/// operation on the same key can fall between them.
pub trait IPaymentAddressRepository: Sized {
    /// The stored table: key `(domain, username)` to record content. An
    /// implementation outside the verified library may leave the default,
    /// about which nothing is proved.
    open spec fn repo_map(&self) -> Map<(Seq<char>, Seq<char>), RecordView> {
        Map::empty()
    }

    /// Structural validity of the store's representation.
    open spec fn inv(&self) -> bool {
        true
    }

    /// Whether the backend is free of failures; an in-memory store is, a
    /// remote one is not assumed to be.
    open spec fn storage_reliable(&self) -> bool {
        false
    }

    /// Look a record up; absence is a normal outcome, not an error.
    fn get_payment_address(&self, domain: &str, username: &str) -> (r: Result<
        Option<PaymentAddress>,
        StorageError,
    >)
        requires
            self.inv(),
        ensures
            self.storage_reliable() ==> r is Ok,
            match r {
                Ok(Some(rec)) => self.repo_map().contains_key((domain@, username@))
                    && rec.domain@ == domain@ && rec.username@ == username@ && record_view(rec)
                    == self.repo_map()[(domain@, username@)],
                Ok(None) => !self.repo_map().contains_key((domain@, username@)),
                Err(_) => true,
            },
    ;

    /// Insert a record; an existing key is rejected, never overwritten.
    fn add_payment_address(
        &mut self,
        domain: &str,
        username: &str,
        destination: DestinationPaymentAddress,
        authentication_token: &str,
    ) -> (r: Result<(), AddError>)
        requires
            old(self).inv(),
        ensures
            final(self).inv(),
            final(self).storage_reliable() == old(self).storage_reliable(),
            old(self).storage_reliable() ==> r != Err::<(), AddError>(AddError::Storage),
            match r {
                Ok(()) => !old(self).repo_map().contains_key((domain@, username@))
                    && final(self).repo_map() == old(self).repo_map().insert(
                    (domain@, username@),
                    (RecordView {
                        destination: destination@,
                        authentication_token: authentication_token@,
                    }),
                ),
                Err(AddError::AlreadyRegistered) => old(self).repo_map().contains_key(
                    (domain@, username@),
                ) && final(self).repo_map() == old(self).repo_map(),
                Err(AddError::Storage) => final(self).repo_map() == old(self).repo_map(),
            },
    ;

    /// Compare the stored token and delete, atomically. Removal of a
    /// nonexistent address is idempotent and never `Unauthorized`.
    fn remove_payment_address(
        &mut self,
        domain: &str,
        username: &str,
        authentication_token: &str,
    ) -> (r: Result<RemoveOutcome, RemoveError>)
        requires
            old(self).inv(),
        ensures
            final(self).inv(),
            final(self).storage_reliable() == old(self).storage_reliable(),
            old(self).storage_reliable() ==> r != Err::<RemoveOutcome, RemoveError>(
                RemoveError::Storage,
            ),
            match r {
                Ok(RemoveOutcome::Removed) => old(self).repo_map().contains_key(
                    (domain@, username@),
                ) && old(self).repo_map()[(domain@, username@)].authentication_token
                    == authentication_token@
                    && final(self).repo_map() == old(self).repo_map().remove((domain@, username@)),
                Ok(RemoveOutcome::NotFound) => !old(self).repo_map().contains_key(
                    (domain@, username@),
                ) && final(self).repo_map() == old(self).repo_map(),
                Err(RemoveError::Unauthorized) => old(self).repo_map().contains_key(
                    (domain@, username@),
                ) && old(self).repo_map()[(domain@, username@)].authentication_token
                    != authentication_token@ && final(self).repo_map() == old(self).repo_map(),
                Err(RemoveError::Storage) => final(self).repo_map() == old(self).repo_map(),
            },
    ;
}

} // verus!
