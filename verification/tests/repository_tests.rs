use lnaddrd::destination::DestinationPaymentAddress;
use lnaddrd::memory::MemoryPaymentAddressRepository;
use lnaddrd::repository::{
    AddError, IPaymentAddressRepository, RemoveError, RemoveOutcome,
};

fn alias(user: &str, domain: &str) -> DestinationPaymentAddress {
    DestinationPaymentAddress::LnAddress {
        user: user.to_owned(),
        domain: domain.to_owned(),
    }
}

#[test]
fn get_absent_is_none() {
    let repo = MemoryPaymentAddressRepository::new();
    assert!(repo.get_payment_address("example.com", "alice").unwrap().is_none());
}

#[test]
fn add_then_get_returns_the_record() {
    let mut repo = MemoryPaymentAddressRepository::new();
    repo.add_payment_address("example.com", "alice", alias("bob", "otherdomain.com"), "tok")
        .unwrap();
    let rec = repo
        .get_payment_address("example.com", "alice")
        .unwrap()
        .unwrap();
    assert_eq!(rec.domain, "example.com");
    assert_eq!(rec.username, "alice");
    assert_eq!(rec.authentication_token, "tok");
    assert_eq!(rec.destination.to_text(), "bob@otherdomain.com");
}

#[test]
fn duplicate_add_is_rejected_not_overwritten() {
    let mut repo = MemoryPaymentAddressRepository::new();
    repo.add_payment_address("example.com", "alice", alias("bob", "one.net"), "tok1")
        .unwrap();
    let r = repo.add_payment_address("example.com", "alice", alias("carol", "two.net"), "tok2");
    assert_eq!(r.unwrap_err(), AddError::AlreadyRegistered);
    let rec = repo
        .get_payment_address("example.com", "alice")
        .unwrap()
        .unwrap();
    assert_eq!(rec.destination.to_text(), "bob@one.net");
    assert_eq!(rec.authentication_token, "tok1");
}

#[test]
fn remove_checks_token_and_deletes() {
    let mut repo = MemoryPaymentAddressRepository::new();
    repo.add_payment_address("example.com", "alice", alias("bob", "one.net"), "tok")
        .unwrap();
    let denied = repo.remove_payment_address("example.com", "alice", "other");
    assert_eq!(denied.unwrap_err(), RemoveError::Unauthorized);
    assert!(repo.get_payment_address("example.com", "alice").unwrap().is_some());
    let removed = repo.remove_payment_address("example.com", "alice", "tok");
    assert_eq!(removed.unwrap(), RemoveOutcome::Removed);
    assert!(repo.get_payment_address("example.com", "alice").unwrap().is_none());
}

#[test]
fn remove_absent_is_not_found_never_unauthorized() {
    let mut repo = MemoryPaymentAddressRepository::new();
    let r = repo.remove_payment_address("example.com", "alice", "whatever");
    assert_eq!(r.unwrap(), RemoveOutcome::NotFound);
}

#[test]
fn timestamps_are_set_by_the_repository() {
    let mut repo = MemoryPaymentAddressRepository::new();
    repo.add_payment_address("example.com", "alice", alias("bob", "one.net"), "tok")
        .unwrap();
    let rec = repo
        .get_payment_address("example.com", "alice")
        .unwrap()
        .unwrap();
    assert_eq!(rec.created_at, rec.updated_at);
}
