//! Spot account: the signed balance query and the reconciliation of the
//! stored currency set with the balances just read.
use vstd::prelude::*;
use crate::signing::{pair_views, signed_query, spec_signed_query, text_pair};
use crate::text::{format_i64, int_decimal, string_views};

verus! {

/// Spot account repository.
pub struct AccountRepository {}

/// The parameters of the spot account request at `timestamp`.
pub open spec fn spec_account_params(timestamp: int) -> Seq<(Seq<char>, Seq<char>)> {
    seq![("recvWindow"@, "60000"@), ("timestamp"@, int_decimal(timestamp))]
}

/// The currencies to drop: those of the last stored set that are not among
/// the currencies with a balance now, in the stored order.
pub open spec fn spec_stale_currencies(current: Seq<Seq<char>>, last: Seq<Seq<char>>) -> Seq<Seq<char>> {
    last.filter(|c: Seq<char>| !current.contains(c))
}

impl AccountRepository {
    /// The parameters of the account request at `timestamp`.
    pub fn params(timestamp: i64) -> (params: Vec<(String, String)>)
        ensures
            pair_views(params@) == spec_account_params(timestamp as int),
    {
        let mut params: Vec<(String, String)> = Vec::new();
        params.push(text_pair("recvWindow", "60000"));
        let t = format_i64(timestamp);
        params.push(text_pair("timestamp", t.as_str()));
        assert(pair_views(params@) =~= spec_account_params(timestamp as int));
        params
    }

    /// The signed query of the account request at `timestamp`.
    pub fn flush_query(secret: &str, timestamp: i64) -> (query: String)
        ensures
            query@ == spec_signed_query(secret@, spec_account_params(timestamp as int)),
    {
        let params = Self::params(timestamp);
        signed_query(secret, &params)
    }

    /// The stored currencies that no longer have a balance.
    pub fn stale_currencies(current: &Vec<String>, last: &Vec<String>) -> (stale: Vec<String>)
        ensures
            string_views(stale@) == spec_stale_currencies(string_views(current@), string_views(last@)),
    {
        stale_currencies(current, last)
    }
}

/// Whether `c` is one of the strings of `v`.
pub fn contains_string(v: &Vec<String>, c: &String) -> (found: bool)
    ensures
        found == string_views(v@).contains(c@),
{
    let ghost views = string_views(v@);
    let mut i: usize = 0;
    while i < v.len()
        invariant
            i <= v.len(),
            views == string_views(v@),
            forall|j: int| 0 <= j < i ==> views[j] != c@,
        decreases v.len() - i,
    {
        if v[i] == *c {
            assert(views[i as int] == c@);
            return true;
        }
        i = i + 1;
    }
    proof {
        if views.contains(c@) {
            let j = choose|j: int| 0 <= j < views.len() && views[j] == c@;
            assert(false);
        }
    }
    false
}

/// The strings of `last` that are not in `current`, in order.
pub fn stale_currencies(current: &Vec<String>, last: &Vec<String>) -> (stale: Vec<String>)
    ensures
        string_views(stale@) == spec_stale_currencies(string_views(current@), string_views(last@)),
{
    let ghost cur = string_views(current@);
    let ghost lv = string_views(last@);
    let mut stale: Vec<String> = Vec::new();
    let mut i: usize = 0;
    while i < last.len()
        invariant
            i <= last.len(),
            cur == string_views(current@),
            lv == string_views(last@),
            string_views(stale@) == lv.take(i as int).filter(|c: Seq<char>| !cur.contains(c)),
        decreases last.len() - i,
    {
        assert(lv.take(i + 1).drop_last() =~= lv.take(i as int));
        assert(lv.take(i + 1).last() == last@[i as int]@);
        proof {
            reveal_with_fuel(Seq::<_>::filter, 1);
        }
        if !contains_string(current, &last[i]) {
            stale.push(last[i].clone());
            assert(string_views(stale@) =~= lv.take(i as int).filter(|c: Seq<char>| !cur.contains(c)).push(last@[i as int]@));
        } else {
            assert(string_views(stale@) =~= lv.take(i as int).filter(|c: Seq<char>| !cur.contains(c)));
        }
        i = i + 1;
    }
    assert(lv.take(last.len() as int) =~= lv);
    stale
}

/// After the stale currencies are removed, none of them has a balance,
/// and every stored currency without a balance is removed.
pub proof fn law_stale_currencies_exact(current: Seq<Seq<char>>, last: Seq<Seq<char>>)
    ensures
        forall|c: Seq<char>| #[trigger] spec_stale_currencies(current, last).contains(c)
            <==> (last.contains(c) && !current.contains(c)),
{
    let f = |c: Seq<char>| !current.contains(c);
    assert forall|c: Seq<char>| #[trigger] spec_stale_currencies(current, last).contains(c)
        <==> (last.contains(c) && !current.contains(c)) by {
        if spec_stale_currencies(current, last).contains(c) {
            last.lemma_filter_contains_rev(f, c);
            reveal_with_fuel(Seq::<_>::filter, 1);
            broadcast use vstd::seq_lib::group_filter_ensures;
        }
        if last.contains(c) && f(c) {
            let j = choose|j: int| 0 <= j < last.len() && last[j] == c;
            last.lemma_filter_contains(f, j);
        }
    }
}

} // verus!
