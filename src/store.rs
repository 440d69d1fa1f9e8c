//! The results store: one result per strategy, time frames, market and symbol.
use vstd::prelude::*;
use crate::engine::BacktestResult;
use crate::instrument::TimeFrameType;
use crate::strategy::StrategyType;

verus! {

/// What identifies a stored result.
pub type Key = (Seq<char>, StrategyType, TimeFrameType, Option<TimeFrameType>, Seq<char>, Seq<char>);

pub open spec fn key_of(r: BacktestResult) -> Key {
    (r.strategy@, r.strategy_type, r.time_frame, r.higher_time_frame, r.market@, r.symbol@)
}

/// The first index at or after `i` whose result has key `k`.
pub open spec fn find_key(s: Seq<BacktestResult>, k: Key, i: int) -> Option<int>
    decreases s.len() - i,
{
    if i < 0 || i >= s.len() {
        None
    } else if key_of(s[i]) == k {
        Some(i)
    } else {
        find_key(s, k, i + 1)
    }
}

/// `s` with `r` in place of the result of the same key, or with `r` appended.
pub open spec fn upserted(s: Seq<BacktestResult>, r: BacktestResult) -> Seq<BacktestResult> {
    match find_key(s, key_of(r), 0) {
        Some(i) => s.update(i, r),
        None => s.push(r),
    }
}

/// No two results share a key.
pub open spec fn keys_unique(s: Seq<BacktestResult>) -> bool {
    forall|i: int, j: int| 0 <= i < j < s.len() ==> key_of(#[trigger] s[i]) != key_of(#[trigger] s[j])
}

proof fn lemma_find_key(s: Seq<BacktestResult>, k: Key, i: int)
    requires
        0 <= i <= s.len(),
    ensures
        match find_key(s, k, i) {
            Some(j) => i <= j < s.len() && key_of(s[j]) == k && forall|m: int| i <= m < j ==> key_of(#[trigger] s[m]) != k,
            None => forall|m: int| i <= m < s.len() ==> key_of(#[trigger] s[m]) != k,
        },
    decreases s.len() - i,
{
    if i < s.len() {
        lemma_find_key(s, k, i + 1);
    }
}

proof fn lemma_find_key_unique(s: Seq<BacktestResult>, k: Key, j: int)
    requires
        0 <= j < s.len(),
        key_of(s[j]) == k,
        forall|m: int| 0 <= m < j ==> key_of(#[trigger] s[m]) != k,
    ensures
        find_key(s, k, 0) == Some(j),
{
    lemma_find_key(s, k, 0);
    match find_key(s, k, 0) {
        Some(x) => {
            if x < j {
                assert(key_of(s[x]) != k);
            } else if x > j {
                assert(key_of(s[j]) != k);
            }
        },
        None => {
            assert(key_of(s[j]) != k);
        },
    }
}

proof fn lemma_find_key_none(s: Seq<BacktestResult>, k: Key)
    requires
        forall|m: int| 0 <= m < s.len() ==> key_of(#[trigger] s[m]) != k,
    ensures
        find_key(s, k, 0) is None,
{
    lemma_find_key(s, k, 0);
    match find_key(s, k, 0) {
        Some(x) => {
            assert(key_of(s[x]) != k);
        },
        None => {},
    }
}

/// Storing the same result twice leaves the store as storing it once.
pub proof fn lemma_upsert_idempotent(s: Seq<BacktestResult>, r: BacktestResult)
    ensures
        upserted(upserted(s, r), r) == upserted(s, r),
{
    let k = key_of(r);
    lemma_find_key(s, k, 0);
    let t = upserted(s, r);
    match find_key(s, k, 0) {
        Some(i) => {
            assert forall|m: int| 0 <= m < i implies key_of(#[trigger] t[m]) != k by {
                assert(t[m] == s[m]);
            }
            lemma_find_key_unique(t, k, i);
            assert(t.update(i, r) =~= t);
        },
        None => {
            assert forall|m: int| 0 <= m < s.len() implies key_of(#[trigger] t[m]) != k by {
                assert(t[m] == s[m]);
            }
            lemma_find_key_unique(t, k, s.len() as int);
            assert(t.update(s.len() as int, r) =~= t);
        },
    }
}

/// Storing a result keeps the keys unique.
pub proof fn lemma_upsert_keeps_keys_unique(s: Seq<BacktestResult>, r: BacktestResult)
    requires
        keys_unique(s),
    ensures
        keys_unique(upserted(s, r)),
{
    let k = key_of(r);
    lemma_find_key(s, k, 0);
    let t = upserted(s, r);
    match find_key(s, k, 0) {
        Some(i) => {
            assert forall|a: int, b: int| 0 <= a < b < t.len() implies key_of(#[trigger] t[a]) != key_of(#[trigger] t[b]) by {
                if a == i {
                    assert(key_of(s[i]) != key_of(s[b]));
                } else if b == i {
                    assert(key_of(s[a]) != key_of(s[i]));
                }
            }
        },
        None => {},
    }
}

/// Whether two results share a key.
pub fn same_key(a: &BacktestResult, b: &BacktestResult) -> (r: bool)
    ensures
        r == (key_of(*a) == key_of(*b)),
{
    let htf = match (a.higher_time_frame, b.higher_time_frame) {
        (Some(x), Some(y)) => x == y,
        (None, None) => true,
        _ => false,
    };
    a.strategy_type == b.strategy_type && a.time_frame == b.time_frame && htf && a.strategy.eq(&b.strategy)
        && a.market.eq(&b.market) && a.symbol.eq(&b.symbol)
}

/// Results keyed by strategy, strategy type, time frames, market and symbol.
pub struct ResultStore {
    pub results: Vec<BacktestResult>,
}

impl ResultStore {
    pub open spec fn wf(&self) -> bool {
        keys_unique(self.results@)
    }

    pub fn new() -> (r: ResultStore)
        ensures
            r.results@ == Seq::<BacktestResult>::empty(),
            r.wf(),
    {
        ResultStore { results: Vec::new() }
    }

    /// The index of the result stored under the key of `r`, if any.
    pub fn find(&self, r: &BacktestResult) -> (i: Option<usize>)
        ensures
            match i {
                Some(j) => find_key(self.results@, key_of(*r), 0) == Some(j as int),
                None => find_key(self.results@, key_of(*r), 0) is None,
            },
    {
        let mut i: usize = 0;
        while i < self.results.len()
            invariant
                i <= self.results.len(),
                find_key(self.results@, key_of(*r), 0) == find_key(self.results@, key_of(*r), i as int),
            decreases self.results.len() - i,
        {
            if same_key(&self.results[i], r) {
                return Some(i);
            }
            i = i + 1;
        }
        None
    }

    /// Stores `r`, replacing the result of the same key if there is one.
    pub fn upsert(&mut self, r: BacktestResult)
        requires
            old(self).wf(),
        ensures
            final(self).wf(),
            final(self).results@ == upserted(old(self).results@, r),
    {
        proof {
            lemma_upsert_keeps_keys_unique(self.results@, r);
            lemma_find_key(self.results@, key_of(r), 0);
        }
        let ghost s0 = self.results@;
        let ghost k = key_of(r);
        let found = self.find(&r);
        match found {
            Some(i) => {
                assert(find_key(s0, k, 0) == Some(i as int));
                self.results.set(i, r);
                assert(self.results@ == s0.update(i as int, r));
            },
            None => {
                assert(find_key(s0, k, 0) is None);
                self.results.push(r);
                assert(self.results@ == s0.push(r));
            },
        }
    }

    pub fn len(&self) -> (n: usize)
        ensures
            n == self.results.len(),
    {
        self.results.len()
    }
}

} // verus!
