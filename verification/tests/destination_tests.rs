use lnaddrd::destination::{DestinationPaymentAddress, InvalidDestination};

// The standard encoded example of the pay protocol and the endpoint it
// decodes to.
const ENCODED: &str = "LNURL1DP68GURN8GHJ7UM9WFMXJCM99E3K7MF0V9CXJ0M385EKVCENXC6R2C35XVUKXEFCV5MKVV34X5EKZD3EV56NYD3HXQURZEPEXEJXXEPNXSCRVWFNV9NXZCN9XQ6XYEFHVGCXXCMYXYMNSERXFQ5FNS";
const DECODED: &str = "https://service.com/api?q=3fc3645b439ce8e7f2553a69e5267081d96dcd340693afabe04be7b0ccd178df";

#[test]
fn parse_alias_succeeds() {
    let d = DestinationPaymentAddress::parse("alice@example.com").unwrap();
    match d {
        DestinationPaymentAddress::LnAddress { user, domain } => {
            assert_eq!(user, "alice");
            assert_eq!(domain, "example.com");
        }
        _ => panic!("expected an alias destination"),
    }
}

#[test]
fn parse_two_at_signs_fails() {
    let r = DestinationPaymentAddress::parse("not-a-valid-string-with-two@@signs");
    assert_eq!(r.unwrap_err(), InvalidDestination);
}

#[test]
fn parse_empty_fails() {
    let r = DestinationPaymentAddress::parse("");
    assert_eq!(r.unwrap_err(), InvalidDestination);
}

#[test]
fn parse_encoded_succeeds() {
    let d = DestinationPaymentAddress::parse(ENCODED).unwrap();
    match &d {
        DestinationPaymentAddress::Lnurl { encoded, url } => {
            assert_eq!(encoded, ENCODED);
            assert_eq!(url, DECODED);
        }
        _ => panic!("expected an encoded destination"),
    }
    assert_eq!(d.url(), DECODED);
}

#[test]
fn round_trip_encoded_unchanged() {
    let d = DestinationPaymentAddress::parse(ENCODED).unwrap();
    assert_eq!(d.to_text(), ENCODED);
}

#[test]
fn round_trip_alias_reconstructed() {
    let d = DestinationPaymentAddress::parse("alice@example.com").unwrap();
    assert_eq!(d.to_text(), "alice@example.com");
}

#[test]
fn url_of_alias() {
    let d = DestinationPaymentAddress::LnAddress {
        user: "bob".to_owned(),
        domain: "example.org".to_owned(),
    };
    assert_eq!(d.url(), "https://example.org/.well-known/lnurlp/bob");
}

#[test]
fn to_text_of_alias() {
    let d = DestinationPaymentAddress::LnAddress {
        user: "bob".to_owned(),
        domain: "example.org".to_owned(),
    };
    assert_eq!(d.to_text(), "bob@example.org");
}

#[test]
fn alias_with_empty_parts_parses() {
    let d = DestinationPaymentAddress::parse("@").unwrap();
    match d {
        DestinationPaymentAddress::LnAddress { user, domain } => {
            assert_eq!(user, "");
            assert_eq!(domain, "");
        }
        _ => panic!("expected an alias destination"),
    }
}
