//! The destination model: where a payment address points. A destination is
//! either a self-contained encoded reference (a bech32 `lnurl1...` text that
//! decodes to an endpoint URL) or an alias `user@domain` resolved by a fixed
//! URL convention.

use vstd::prelude::*;
use vstd::string::*;

verus! {

/// Specification-level value of a destination.
pub enum DestinationView {
    Lnurl { encoded: Seq<char>, url: Seq<char> },
    LnAddress { user: Seq<char>, domain: Seq<char> },
}

/// A stored payment destination. The `Lnurl` variant keeps both the encoded
/// text it was parsed from and the endpoint URL that text decodes to; the
/// `LnAddress` variant is an alias resolved by convention.
#[derive(Debug)]
pub enum DestinationPaymentAddress {
    Lnurl { encoded: String, url: String },
    LnAddress { user: String, domain: String },
}

impl View for DestinationPaymentAddress {
    type V = DestinationView;

    open spec fn view(&self) -> DestinationView {
        match self {
            DestinationPaymentAddress::Lnurl { encoded, url } => DestinationView::Lnurl {
                encoded: encoded@,
                url: url@,
            },
            DestinationPaymentAddress::LnAddress { user, domain } => DestinationView::LnAddress {
                user: user@,
                domain: domain@,
            },
        }
    }
}

impl Clone for DestinationPaymentAddress {
    fn clone(&self) -> (r: Self)
        ensures
            r == *self,
    {
        match self {
            DestinationPaymentAddress::Lnurl { encoded, url } => DestinationPaymentAddress::Lnurl {
                encoded: encoded.clone(),
                url: url.clone(),
            },
            DestinationPaymentAddress::LnAddress { user, domain } => DestinationPaymentAddress::LnAddress {
                user: user.clone(),
                domain: domain.clone(),
            },
        }
    }
}

/// The error a malformed destination text is rejected with: the text is
/// neither a valid encoded reference nor `user@domain`.
#[derive(Debug, Clone, Copy, PartialEq, Eq, Structural)]
pub struct InvalidDestination;

/// What `lnurl::lnurl::LnUrl::decode` yields on a given text: the endpoint
/// URL carried by a valid encoding, or nothing. The result depends on the
/// text alone.
pub uninterp spec fn lnurl_decode_spec(s: Seq<char>) -> Option<Seq<char>>;

/// Relies on `lnurl::lnurl::LnUrl::decode`: bech32-decodes a `lnurl1...`
/// text and returns the endpoint URL it carries, failing on any other text.
#[verifier::external_body]
fn decode_lnurl(s: &str) -> (r: Option<String>)
    ensures
        match r {
            Some(url) => lnurl_decode_spec(s@) == Some(url@),
            None => lnurl_decode_spec(s@) is None,
        },
{
    match lnurl::lnurl::LnUrl::decode(s.to_owned()) {
        Ok(l) => Some(l.url),
        Err(_) => None,
    }
}

/// The text contains exactly one `@`.
pub open spec fn is_alias_text(s: Seq<char>) -> bool {
    exists|i: int|
        0 <= i < s.len() && s[i] == '@' && (forall|j: int|
            0 <= j < s.len() && j != i ==> s[j] != '@')
}

/// The index of the single `@` of an alias text.
pub open spec fn alias_at_index(s: Seq<char>) -> int {
    choose|i: int|
        0 <= i < s.len() && s[i] == '@' && (forall|j: int|
            0 <= j < s.len() && j != i ==> s[j] != '@')
}

/// What parsing a destination text yields: the decoded reference when the
/// text is a valid encoding, otherwise the alias split on its single `@`,
/// otherwise nothing.
pub open spec fn parse_spec(s: Seq<char>) -> Option<DestinationView> {
    match lnurl_decode_spec(s) {
        Some(url) => Some(DestinationView::Lnurl { encoded: s, url }),
        None => if is_alias_text(s) {
            let i = alias_at_index(s);
            Some(
                DestinationView::LnAddress {
                    user: s.subrange(0, i),
                    domain: s.subrange(i + 1, s.len() as int),
                },
            )
        } else {
            None
        },
    }
}

/// The canonical round-trip text of a destination.
pub open spec fn to_text_spec(d: DestinationView) -> Seq<char> {
    match d {
        DestinationView::Lnurl { encoded, url } => encoded,
        DestinationView::LnAddress { user, domain } => user + seq!['@'] + domain,
    }
}

/// The HTTPS endpoint a destination resolves to.
pub open spec fn url_spec(d: DestinationView) -> Seq<char> {
    match d {
        DestinationView::Lnurl { encoded, url } => url,
        DestinationView::LnAddress { user, domain } => "https://"@ + domain
            + "/.well-known/lnurlp/"@ + user,
    }
}

impl DestinationPaymentAddress {
    /// Parse a destination text: try the encoded form first; on failure the
    /// text must be `user@domain` with exactly one `@`.
    pub fn parse(s: &str) -> (r: Result<Self, InvalidDestination>)
        ensures
            match r {
                Ok(d) => parse_spec(s@) == Some(d@),
                Err(_) => parse_spec(s@) is None,
            },
    {
        match decode_lnurl(s) {
            Some(url) => Ok(DestinationPaymentAddress::Lnurl { encoded: s.to_owned(), url }),
            None => {
                let n = s.unicode_len();
                let mut i: usize = 0;
                let mut first: Option<usize> = None;
                let mut second: Option<usize> = None;
                while i < n
                    invariant
                        n == s@.len(),
                        i <= n,
                        match first {
                            None => forall|j: int| 0 <= j < i ==> s@[j] != '@',
                            Some(p) => p < i && s@[p as int] == '@' && (forall|j: int|
                                0 <= j < p ==> s@[j] != '@'),
                        },
                        match (first, second) {
                            (Some(p), None) => forall|j: int| p < j < i ==> s@[j] != '@',
                            (Some(p), Some(q)) => p < q < i && s@[q as int] == '@',
                            (None, None) => true,
                            (None, Some(_)) => false,
                        },
                    decreases n - i,
                {
                    let c = s.get_char(i);
                    if c == '@' {
                        if first.is_none() {
                            first = Some(i);
                        } else if second.is_none() {
                            second = Some(i);
                        }
                    }
                    i += 1;
                }
                match (first, second) {
                    (Some(p), None) => {
                        proof {
                            let pi = p as int;
                            assert(0 <= pi < s@.len() && s@[pi] == '@' && (forall|j: int|
                                0 <= j < s@.len() && j != pi ==> s@[j] != '@'));
                            assert(is_alias_text(s@));
                            let ai = alias_at_index(s@);
                            if ai != pi {
                                assert(s@[pi] != '@');
                            }
                            assert(ai == pi);
                        }
                        let user = s.substring_char(0, p).to_owned();
                        let domain = s.substring_char(p + 1, n).to_owned();
                        Ok(DestinationPaymentAddress::LnAddress { user, domain })
                    },
                    (Some(p), Some(q)) => {
                        proof {
                            if is_alias_text(s@) {
                                let ai = alias_at_index(s@);
                                assert(s@[p as int] == '@');
                                assert(s@[q as int] == '@');
                                if ai != p {
                                    assert(s@[p as int] != '@');
                                } else {
                                    assert(s@[q as int] != '@');
                                }
                            }
                        }
                        Err(InvalidDestination)
                    },
                    _ => {
                        proof {
                            if is_alias_text(s@) {
                                let ai = alias_at_index(s@);
                                assert(s@[ai] != '@');
                            }
                        }
                        Err(InvalidDestination)
                    },
                }
            },
        }
    }

    /// The canonical round-trip text: the encoded form unchanged, or
    /// `user@domain`.
    pub fn to_text(&self) -> (r: String)
        ensures
            r@ == to_text_spec(self@),
    {
        match self {
            DestinationPaymentAddress::Lnurl { encoded, url: _ } => encoded.clone(),
            DestinationPaymentAddress::LnAddress { user, domain } => {
                let mut s = user.clone();
                s.append("@");
                s.append(domain.as_str());
                proof {
                    reveal_strlit("@");
                    assert(("@")@ =~= seq!['@']);
                    assert(s@ =~= user@ + seq!['@'] + domain@);
                }
                s
            },
        }
    }

    /// The HTTPS endpoint to query for a manifest: the decoded endpoint of an
    /// encoded reference, or `https://{domain}/.well-known/lnurlp/{user}` for
    /// an alias. Pure: no request is made.
    pub fn url(&self) -> (r: String)
        ensures
            r@ == url_spec(self@),
    {
        match self {
            DestinationPaymentAddress::Lnurl { encoded: _, url } => url.clone(),
            DestinationPaymentAddress::LnAddress { user, domain } => {
                let mut s = "https://".to_owned();
                s.append(domain.as_str());
                s.append("/.well-known/lnurlp/");
                s.append(user.as_str());
                proof {
                    assert(s@ =~= "https://"@ + domain@ + "/.well-known/lnurlp/"@ + user@);
                }
                s
            },
        }
    }
}

/// Round-trip law: a text that parses prints back as itself; the encoded form
/// is kept unchanged and an alias is reconstructed as `user@domain`.
pub proof fn lemma_parse_to_text_round_trip(s: Seq<char>)
    ensures
        parse_spec(s) matches Some(d) ==> to_text_spec(d) == s,
{
    if lnurl_decode_spec(s) is None && is_alias_text(s) {
        let i = alias_at_index(s);
        assert(0 <= i < s.len() && s[i] == '@');
        assert(s.subrange(0, i) + seq!['@'] + s.subrange(i + 1, s.len() as int) =~= s);
    }
}

} // verus!
