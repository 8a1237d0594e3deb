//! Answers of delegate contracts, per contract and per user, as fixed
//! tables: later rows for the same contract or user replace earlier ones.
use vstd::prelude::*;
use crate::kyc_vault::IsAcceptedVerifiedResponse;

verus! {

/// For each delegate contract, the answer it gives about each user.
pub struct DelegateTable<T> {
    rows: Vec<(String, Vec<(String, T)>)>,
}

/// Index of the last row whose key is `k`.
pub open spec fn last_index<T>(s: Seq<(String, T)>, k: Seq<char>) -> Option<int>
    decreases s.len(),
{
    if s.len() == 0 {
        None
    } else if s.last().0@ == k {
        Some(s.len() - 1)
    } else {
        last_index(s.drop_last(), k)
    }
}

/// The answer recorded for `user` at `contract`.
pub open spec fn table_get<T>(rows: Seq<(String, Vec<(String, T)>)>, contract: Seq<char>, user: Seq<char>) -> Option<T> {
    match last_index(rows, contract) {
        None => None,
        Some(i) => match last_index(rows[i].1@, user) {
            None => None,
            Some(j) => Some(rows[i].1@[j].1),
        },
    }
}

proof fn lemma_last_index_bounds<T>(s: Seq<(String, T)>, k: Seq<char>)
    ensures
        last_index(s, k) matches Some(i) ==> 0 <= i < s.len() && s[i].0@ == k,
    decreases s.len(),
{
    if s.len() > 0 {
        lemma_last_index_bounds(s.drop_last(), k);
    }
}

/// Index of the last row of `s` keyed `k`, scanning from the end.
fn find_last<T>(s: &Vec<(String, T)>, k: &String) -> (r: Option<usize>)
    ensures
        r matches Some(i) ==> last_index(s@, k@) == Some(i as int),
        r is None ==> last_index(s@, k@) is None,
{
    let mut i: usize = s.len();
    proof {
        assert(s@.take(s@.len() as int) =~= s@);
    }
    while i > 0
        invariant
            i <= s@.len(),
            last_index(s@, k@) == last_index(s@.take(i as int), k@),
        decreases i,
    {
        proof {
            assert(s@.take(i as int).drop_last() =~= s@.take(i - 1));
            assert(s@.take(i as int).last() == s@[i - 1]);
        }
        if s[i - 1].0 == *k {
            return Some(i - 1);
        }
        i = i - 1;
    }
    proof {
        assert(s@.take(0) =~= Seq::<(String, T)>::empty());
    }
    None
}

impl<T> DelegateTable<T> {
    pub closed spec fn rows(&self) -> Seq<(String, Vec<(String, T)>)> {
        self.rows@
    }

    /// The answer recorded for `user` at `contract`, if any.
    pub fn get(&self, contract: &String, user: &String) -> (r: Option<&T>)
        ensures
            r matches Some(v) ==> table_get(self.rows(), contract@, user@) == Some(*v),
            r is None ==> table_get(self.rows(), contract@, user@) is None,
    {
        match find_last(&self.rows, contract) {
            None => None,
            Some(ci) => {
                proof {
                    lemma_last_index_bounds(self.rows@, contract@);
                }
                let entries = &self.rows[ci].1;
                match find_last(entries, user) {
                    None => None,
                    Some(j) => {
                        proof {
                            lemma_last_index_bounds(entries@, user@);
                        }
                        Some(&entries[j].1)
                    },
                }
            },
        }
    }
}

/// A table of answers, one row per contract with its users' answers.
pub fn data_to_map<T>(staker_info: Vec<(String, Vec<(String, T)>)>) -> (r: DelegateTable<T>)
    ensures
        r.rows() == staker_info@,
{
    DelegateTable { rows: staker_info }
}

/// A table of KYC vault answers from `(is_accepted, is_verified)` pairs;
/// each answer carries the user's address.
pub fn account_info_to_terms_map(account_info: &Vec<(String, Vec<(String, (bool, bool))>)>) -> (r: DelegateTable<
    IsAcceptedVerifiedResponse,
>)
    ensures
        r.rows().len() == account_info@.len(),
        forall|i: int|
            0 <= i < account_info@.len() ==> (#[trigger] r.rows()[i]).0 == account_info@[i].0 && r.rows()[i].1@.len()
                == account_info@[i].1@.len() && forall|j: int|
                0 <= j < account_info@[i].1@.len() ==> (#[trigger] r.rows()[i].1@[j]).0 == account_info@[i].1@[j].0
                    && r.rows()[i].1@[j].1 == (IsAcceptedVerifiedResponse {
                    address: account_info@[i].1@[j].0,
                    is_accepted: account_info@[i].1@[j].1.0,
                    is_verified: account_info@[i].1@[j].1.1,
                }),
{
    let mut rows: Vec<(String, Vec<(String, IsAcceptedVerifiedResponse)>)> = Vec::new();
    let mut i: usize = 0;
    while i < account_info.len()
        invariant
            i <= account_info@.len(),
            rows@.len() == i,
            forall|a: int|
                0 <= a < i ==> (#[trigger] rows@[a]).0 == account_info@[a].0 && rows@[a].1@.len()
                    == account_info@[a].1@.len() && forall|j: int|
                    0 <= j < account_info@[a].1@.len() ==> (#[trigger] rows@[a].1@[j]).0
                        == account_info@[a].1@[j].0 && rows@[a].1@[j].1 == (IsAcceptedVerifiedResponse {
                        address: account_info@[a].1@[j].0,
                        is_accepted: account_info@[a].1@[j].1.0,
                        is_verified: account_info@[a].1@[j].1.1,
                    }),
        decreases account_info@.len() - i,
    {
        let users = &account_info[i].1;
        let mut answers: Vec<(String, IsAcceptedVerifiedResponse)> = Vec::new();
        let mut j: usize = 0;
        while j < users.len()
            invariant
                j <= users@.len(),
                answers@.len() == j,
                forall|b: int|
                    0 <= b < j ==> (#[trigger] answers@[b]).0 == users@[b].0 && answers@[b].1 == (
                    IsAcceptedVerifiedResponse {
                        address: users@[b].0,
                        is_accepted: users@[b].1.0,
                        is_verified: users@[b].1.1,
                    }),
            decreases users@.len() - j,
        {
            let addr = users[j].0.clone();
            let answer = IsAcceptedVerifiedResponse {
                address: users[j].0.clone(),
                is_accepted: users[j].1.0,
                is_verified: users[j].1.1,
            };
            answers.push((addr, answer));
            j = j + 1;
        }
        rows.push((account_info[i].0.clone(), answers));
        i = i + 1;
    }
    DelegateTable { rows }
}

} // verus!
