use lnaddrd::destination::DestinationPaymentAddress;
use lnaddrd::memory::MemoryPaymentAddressRepository;
use lnaddrd::repository::{RemoveError, RemoveOutcome};
use lnaddrd::service::{DirectLnaddrService, RegisterError, TOKEN_LENGTH};

fn service_for(
    domains: &[&str],
) -> DirectLnaddrService<MemoryPaymentAddressRepository> {
    let domains: Vec<String> = domains.iter().map(|d| d.to_string()).collect();
    DirectLnaddrService::new(MemoryPaymentAddressRepository::new(), domains)
}

#[test]
fn list_domains_returns_configured_list() {
    let svc = service_for(&["example.com", "example.org"]);
    assert_eq!(
        svc.list_domains(),
        vec!["example.com".to_string(), "example.org".to_string()]
    );
}

#[test]
fn register_unsupported_domain_fails() {
    let mut svc = service_for(&["example.com"]);
    let r = svc.register_lnaddr("other.org", "alice", "bob@otherdomain.com");
    assert_eq!(r.unwrap_err(), RegisterError::UnsupportedDomain);
}

#[test]
fn register_unsupported_domain_fails_even_for_invalid_destination() {
    let mut svc = service_for(&["example.com"]);
    let r = svc.register_lnaddr("other.org", "alice", "not@a@destination");
    assert_eq!(r.unwrap_err(), RegisterError::UnsupportedDomain);
}

#[test]
fn register_invalid_destination_fails() {
    let mut svc = service_for(&["example.com"]);
    let r = svc.register_lnaddr("example.com", "alice", "not@a@destination");
    assert_eq!(r.unwrap_err(), RegisterError::InvalidDestination);
}

#[test]
fn register_twice_fails_and_keeps_first_record() {
    let mut svc = service_for(&["example.com"]);
    svc.register_lnaddr("example.com", "alice", "bob@otherdomain.com")
        .unwrap();
    let r = svc.register_lnaddr("example.com", "alice", "carol@elsewhere.net");
    assert_eq!(r.unwrap_err(), RegisterError::AlreadyRegistered);
    let d = svc.get_destination("example.com", "alice").unwrap().unwrap();
    assert_eq!(d.to_text(), "bob@otherdomain.com");
}

#[test]
fn issued_token_is_fixed_length_alphanumeric() {
    let mut svc = service_for(&["example.com"]);
    let resp = svc
        .register_lnaddr("example.com", "alice", "bob@otherdomain.com")
        .unwrap();
    assert_eq!(resp.authentication_token.chars().count(), TOKEN_LENGTH);
    assert!(resp
        .authentication_token
        .chars()
        .all(|c| c.is_ascii_alphanumeric()));
}

#[test]
fn remove_is_idempotent() {
    let mut svc = service_for(&["example.com"]);
    let resp = svc
        .register_lnaddr("example.com", "alice", "bob@otherdomain.com")
        .unwrap();
    let first = svc.remove_lnaddr("example.com", "alice", &resp.authentication_token);
    assert_eq!(first.unwrap(), RemoveOutcome::Removed);
    let second = svc.remove_lnaddr("example.com", "alice", &resp.authentication_token);
    assert_eq!(second.unwrap(), RemoveOutcome::NotFound);
}

#[test]
fn remove_with_wrong_token_is_unauthorized_and_keeps_record() {
    let mut svc = service_for(&["example.com"]);
    let resp = svc
        .register_lnaddr("example.com", "alice", "bob@otherdomain.com")
        .unwrap();
    let mut wrong = resp.authentication_token.clone();
    wrong.push('x');
    let r = svc.remove_lnaddr("example.com", "alice", &wrong);
    assert_eq!(r.unwrap_err(), RemoveError::Unauthorized);
    let d = svc.get_destination("example.com", "alice").unwrap().unwrap();
    assert_eq!(d.to_text(), "bob@otherdomain.com");
}

#[test]
fn remove_of_absent_address_is_not_found() {
    let mut svc = service_for(&["example.com"]);
    let r = svc.remove_lnaddr("example.com", "nobody", "whatever");
    assert_eq!(r.unwrap(), RemoveOutcome::NotFound);
}

#[test]
fn get_destination_of_absent_address_is_none() {
    let svc = service_for(&["example.com"]);
    assert!(svc.get_destination("example.com", "alice").unwrap().is_none());
}

#[test]
fn manifest_url_of_alias_destination() {
    let mut svc = service_for(&["example.com"]);
    svc.register_lnaddr("example.com", "alice", "bob@otherdomain.com")
        .unwrap();
    let u = svc.manifest_url("example.com", "alice").unwrap().unwrap();
    assert_eq!(u, "https://otherdomain.com/.well-known/lnurlp/bob");
}

#[test]
fn manifest_url_of_absent_address_is_none() {
    let svc = service_for(&["example.com"]);
    assert!(svc.manifest_url("example.com", "alice").unwrap().is_none());
}

#[test]
fn end_to_end_register_resolve_remove() {
    let mut svc = service_for(&["example.com"]);
    let resp = svc
        .register_lnaddr("example.com", "alice", "bob@otherdomain.com")
        .unwrap();
    assert_eq!(resp.lnaddr, "alice@example.com");
    assert_eq!(resp.authentication_token.chars().count(), TOKEN_LENGTH);
    assert!(resp
        .authentication_token
        .chars()
        .all(|c| c.is_ascii_alphanumeric()));

    let d = svc.get_destination("example.com", "alice").unwrap().unwrap();
    match &d {
        DestinationPaymentAddress::LnAddress { user, domain } => {
            assert_eq!(user, "bob");
            assert_eq!(domain, "otherdomain.com");
        }
        _ => panic!("expected the alias destination back, unchanged"),
    }

    let removed = svc.remove_lnaddr("example.com", "alice", &resp.authentication_token);
    assert_eq!(removed.unwrap(), RemoveOutcome::Removed);
    assert!(svc.get_destination("example.com", "alice").unwrap().is_none());
}

#[test]
fn registrations_under_distinct_keys_coexist() {
    let mut svc = service_for(&["example.com", "example.org"]);
    svc.register_lnaddr("example.com", "alice", "a@one.net").unwrap();
    svc.register_lnaddr("example.org", "alice", "b@two.net").unwrap();
    svc.register_lnaddr("example.com", "bob", "c@three.net").unwrap();
    let d = svc.get_destination("example.org", "alice").unwrap().unwrap();
    assert_eq!(d.to_text(), "b@two.net");
    let d = svc.get_destination("example.com", "alice").unwrap().unwrap();
    assert_eq!(d.to_text(), "a@one.net");
}
