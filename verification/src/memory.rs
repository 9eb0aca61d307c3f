//! The in-memory address store: a fully substitutable repository
//! implementation whose behaviour is proved against the map abstraction of
//! the trait. Records are kept in insertion order with pairwise distinct
//! keys.

use vstd::prelude::*;
use crate::repository::{
    AddError, IPaymentAddressRepository, PaymentAddress, RecordView, RemoveError, RemoveOutcome,
    StorageError, record_key, record_view,
};
use crate::destination::DestinationPaymentAddress;
use crate::strutil::str_eq;

verus! {

/// The in-memory address store.
pub struct MemoryPaymentAddressRepository {
    entries: Vec<PaymentAddress>,
    clock: u64,
}

/// The map a sequence of records stands for: each record stored under its
/// key; with pairwise distinct keys, which record wins is immaterial.
pub open spec fn map_of_entries(s: Seq<PaymentAddress>) -> Map<(Seq<char>, Seq<char>), RecordView>
    decreases s.len(),
{
    if s.len() == 0 {
        Map::empty()
    } else {
        map_of_entries(s.drop_last()).insert(record_key(s.last()), record_view(s.last()))
    }
}

/// No two records share a key.
pub open spec fn unique_keys(s: Seq<PaymentAddress>) -> bool {
    forall|i: int, j: int| 0 <= i < j < s.len() ==> record_key(s[i]) != record_key(s[j])
}

proof fn lemma_map_of_entries_contains(s: Seq<PaymentAddress>, k: (Seq<char>, Seq<char>))
    ensures
        map_of_entries(s).contains_key(k) <==> (exists|i: int|
            0 <= i < s.len() && record_key(s[i]) == k),
    decreases s.len(),
{
    if s.len() > 0 {
        let sl = s.drop_last();
        lemma_map_of_entries_contains(sl, k);
        if map_of_entries(s).contains_key(k) {
            if k == record_key(s.last()) {
                assert(record_key(s[s.len() - 1]) == k);
            } else {
                let i = choose|i: int| 0 <= i < sl.len() && record_key(sl[i]) == k;
                assert(sl[i] == s[i]);
                assert(record_key(s[i]) == k);
            }
        }
        if exists|i: int| 0 <= i < s.len() && record_key(s[i]) == k {
            let i = choose|i: int| 0 <= i < s.len() && record_key(s[i]) == k;
            if i < s.len() - 1 {
                assert(sl[i] == s[i]);
                assert(map_of_entries(sl).contains_key(k));
            }
        }
    }
}

proof fn lemma_map_of_entries_at(s: Seq<PaymentAddress>, i: int)
    requires
        unique_keys(s),
        0 <= i < s.len(),
    ensures
        map_of_entries(s).contains_key(record_key(s[i])),
        map_of_entries(s)[record_key(s[i])] == record_view(s[i]),
    decreases s.len(),
{
    let sl = s.drop_last();
    if i < s.len() - 1 {
        assert forall|a: int, b: int|
            0 <= a < b < sl.len() implies record_key(sl[a]) != record_key(sl[b]) by {
            assert(sl[a] == s[a]);
            assert(sl[b] == s[b]);
        }
        lemma_map_of_entries_at(sl, i);
        assert(sl[i] == s[i]);
        assert(record_key(s[i]) != record_key(s.last()));
    }
}

proof fn lemma_unique_keys_drop_last(s: Seq<PaymentAddress>)
    requires
        unique_keys(s),
        s.len() > 0,
    ensures
        unique_keys(s.drop_last()),
{
    let sl = s.drop_last();
    assert forall|a: int, b: int|
        0 <= a < b < sl.len() implies record_key(sl[a]) != record_key(sl[b]) by {
        assert(sl[a] == s[a]);
        assert(sl[b] == s[b]);
    }
}

proof fn lemma_map_of_entries_remove(s: Seq<PaymentAddress>, i: int)
    requires
        unique_keys(s),
        0 <= i < s.len(),
    ensures
        map_of_entries(s.remove(i)) == map_of_entries(s).remove(record_key(s[i])),
    decreases s.len(),
{
    let sl = s.drop_last();
    let k = record_key(s[i]);
    lemma_unique_keys_drop_last(s);
    if i == s.len() - 1 {
        assert(s.remove(i) =~= sl);
        lemma_map_of_entries_contains(sl, k);
        assert forall|j: int| 0 <= j < sl.len() implies record_key(sl[j]) != k by {
            assert(sl[j] == s[j]);
        }
        assert(!map_of_entries(sl).contains_key(k));
        assert(map_of_entries(sl).insert(k, record_view(s.last())).remove(k) =~= map_of_entries(
            sl,
        ));
    } else {
        let kl = record_key(s.last());
        let vl = record_view(s.last());
        s.remove_ensures(i);
        assert(s.remove(i).len() == s.len() - 1);
        assert(s.remove(i)[s.len() - 2] == s[s.len() - 1]);
        assert(s.remove(i).last() == s.last());
        assert(s.remove(i).drop_last() =~= sl.remove(i)) by {
            s.remove_ensures(i);
            sl.remove_ensures(i);
            assert forall|j: int|
                0 <= j < s.len() - 2 implies s.remove(i).drop_last()[j] == sl.remove(i)[j] by {
                if j < i {
                    assert(s.remove(i)[j] == s[j]);
                    assert(sl.remove(i)[j] == sl[j]);
                    assert(sl[j] == s[j]);
                } else {
                    assert(s.remove(i)[j] == s[j + 1]);
                    assert(sl.remove(i)[j] == sl[j + 1]);
                    assert(sl[j + 1] == s[j + 1]);
                }
            }
        }
        lemma_map_of_entries_remove(sl, i);
        assert(sl[i] == s[i]);
        assert(map_of_entries(s.remove(i)) == map_of_entries(sl).remove(k).insert(kl, vl));
        assert(k != kl);
        assert(map_of_entries(sl).remove(k).insert(kl, vl) =~= map_of_entries(sl).insert(
            kl,
            vl,
        ).remove(k));
    }
}

proof fn lemma_unique_keys_remove(s: Seq<PaymentAddress>, i: int)
    requires
        unique_keys(s),
        0 <= i < s.len(),
    ensures
        unique_keys(s.remove(i)),
{
    s.remove_ensures(i);
    assert forall|a: int, b: int|
        0 <= a < b < s.remove(i).len() implies record_key(s.remove(i)[a]) != record_key(
        s.remove(i)[b],
    ) by {
        let a0 = if a < i { a } else { a + 1 };
        let b0 = if b < i { b } else { b + 1 };
        assert(s.remove(i)[a] == s[a0]);
        assert(s.remove(i)[b] == s[b0]);
    }
}

impl MemoryPaymentAddressRepository {
    /// An empty store.
    pub fn new() -> (r: Self)
        ensures
            r.inv(),
            r.storage_reliable(),
            r.repo_map() == Map::<(Seq<char>, Seq<char>), RecordView>::empty(),
    {
        MemoryPaymentAddressRepository { entries: Vec::new(), clock: 0 }
    }

    fn find_index(&self, domain: &str, username: &str) -> (r: Option<usize>)
        ensures
            match r {
                Some(i) => i < self.entries@.len() && record_key(self.entries@[i as int]) == (
                    domain@,
                    username@,
                ),
                None => forall|j: int|
                    0 <= j < self.entries@.len() ==> record_key(self.entries@[j]) != (
                        domain@,
                        username@,
                    ),
            },
    {
        let mut i: usize = 0;
        while i < self.entries.len()
            invariant
                i <= self.entries.len(),
                forall|j: int|
                    0 <= j < i ==> record_key(self.entries@[j]) != (domain@, username@),
            decreases self.entries.len() - i,
        {
            let e = &self.entries[i];
            if str_eq(e.domain.as_str(), domain) && str_eq(e.username.as_str(), username) {
                return Some(i);
            }
            i += 1;
        }
        None
    }
}

impl IPaymentAddressRepository for MemoryPaymentAddressRepository {
    closed spec fn repo_map(&self) -> Map<(Seq<char>, Seq<char>), RecordView> {
        map_of_entries(self.entries@)
    }

    closed spec fn inv(&self) -> bool {
        unique_keys(self.entries@)
    }

    closed spec fn storage_reliable(&self) -> bool {
        true
    }

    fn get_payment_address(&self, domain: &str, username: &str) -> (r: Result<
        Option<PaymentAddress>,
        StorageError,
    >) {
        match self.find_index(domain, username) {
            Some(i) => {
                proof {
                    lemma_map_of_entries_at(self.entries@, i as int);
                }
                let e = &self.entries[i];
                Ok(
                    Some(
                        PaymentAddress {
                            username: e.username.clone(),
                            domain: e.domain.clone(),
                            destination: e.destination.clone(),
                            authentication_token: e.authentication_token.clone(),
                            created_at: e.created_at,
                            updated_at: e.updated_at,
                        },
                    ),
                )
            },
            None => {
                proof {
                    lemma_map_of_entries_contains(self.entries@, (domain@, username@));
                }
                Ok(None)
            },
        }
    }

    fn add_payment_address(
        &mut self,
        domain: &str,
        username: &str,
        destination: DestinationPaymentAddress,
        authentication_token: &str,
    ) -> (r: Result<(), AddError>) {
        match self.find_index(domain, username) {
            Some(i) => {
                proof {
                    lemma_map_of_entries_contains(self.entries@, (domain@, username@));
                    assert(record_key(self.entries@[i as int]) == (domain@, username@));
                }
                Err(AddError::AlreadyRegistered)
            },
            None => {
                proof {
                    lemma_map_of_entries_contains(self.entries@, (domain@, username@));
                }
                let ghost s0 = self.entries@;
                let rec = PaymentAddress {
                    username: username.to_owned(),
                    domain: domain.to_owned(),
                    destination,
                    authentication_token: authentication_token.to_owned(),
                    created_at: self.clock,
                    updated_at: self.clock,
                };
                self.entries.push(rec);
                if self.clock < u64::MAX {
                    self.clock = self.clock + 1;
                }
                proof {
                    let s1 = self.entries@;
                    assert(s1.drop_last() =~= s0);
                    assert(record_key(s1.last()) == (domain@, username@));
                    assert forall|a: int, b: int|
                        0 <= a < b < s1.len() implies record_key(s1[a]) != record_key(
                        s1[b],
                    ) by {
                        if b < s1.len() - 1 {
                            assert(s1[a] == s0[a]);
                            assert(s1[b] == s0[b]);
                        } else {
                            assert(s1[a] == s0[a]);
                            assert(record_key(s0[a]) != (domain@, username@));
                        }
                    }
                }
                Ok(())
            },
        }
    }

    fn remove_payment_address(
        &mut self,
        domain: &str,
        username: &str,
        authentication_token: &str,
    ) -> (r: Result<RemoveOutcome, RemoveError>) {
        match self.find_index(domain, username) {
            None => {
                proof {
                    lemma_map_of_entries_contains(self.entries@, (domain@, username@));
                }
                Ok(RemoveOutcome::NotFound)
            },
            Some(i) => {
                proof {
                    lemma_map_of_entries_at(self.entries@, i as int);
                }
                if str_eq(self.entries[i].authentication_token.as_str(), authentication_token) {
                    proof {
                        lemma_map_of_entries_remove(self.entries@, i as int);
                        lemma_unique_keys_remove(self.entries@, i as int);
                    }
                    self.entries.remove(i);
                    Ok(RemoveOutcome::Removed)
                } else {
                    Err(RemoveError::Unauthorized)
                }
            },
        }
    }
}

} // verus!
