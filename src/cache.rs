//! Memoised analysis results, valid for a fixed time and bounded in number.
use vstd::prelude::*;
use crate::finding::{GrammarCheckResult, same_result};

verus! {

/// How long a result stays valid, in milliseconds.
pub const CACHE_TTL_MS: u64 = 300_000;
/// Above this many entries an insertion triggers a cleanup.
pub const CACHE_HARD_CAP: usize = 100;
/// A cleanup leaves at most this many entries.
pub const CACHE_SOFT_CAP: usize = 50;

/// What a result depends on: the trimmed text and the flags that change the output.
pub struct CacheKey {
    pub text: Vec<char>,
    pub auto_correct: bool,
    pub smart_suggestions: bool,
    pub style_checks: bool,
}

pub open spec fn key_view(k: CacheKey) -> (Seq<char>, bool, bool, bool) {
    (k.text@, k.auto_correct, k.smart_suggestions, k.style_checks)
}

pub struct CacheEntry {
    pub key: CacheKey,
    pub result: GrammarCheckResult,
    /// Insertion time, in milliseconds.
    pub created_at: u64,
}

/// Entries in insertion order, oldest first.
pub struct ResultCache {
    pub entries: Vec<CacheEntry>,
}

pub open spec fn age(e: CacheEntry, now: u64) -> int {
    if now >= e.created_at {
        now - e.created_at
    } else {
        0
    }
}

/// An entry is valid until it is older than the time to live.
pub open spec fn is_fresh(e: CacheEntry, now: u64) -> bool {
    age(e, now) <= CACHE_TTL_MS
}

/// The index of the first entry with key `k`, searching from `i`.
pub open spec fn key_index_from(s: Seq<CacheEntry>, k: (Seq<char>, bool, bool, bool), i: int) -> Option<int>
    decreases s.len() - i,
{
    if i < 0 || i >= s.len() {
        None
    } else if key_view(s[i].key) == k {
        Some(i)
    } else {
        key_index_from(s, k, i + 1)
    }
}

pub open spec fn key_index(s: Seq<CacheEntry>, k: (Seq<char>, bool, bool, bool)) -> Option<int> {
    key_index_from(s, k, 0)
}

/// The entries that have not expired, in order.
pub open spec fn keep_fresh(s: Seq<CacheEntry>, now: u64) -> Seq<CacheEntry>
    decreases s.len(),
{
    if s.len() == 0 {
        s
    } else {
        let p = keep_fresh(s.drop_last(), now);
        if is_fresh(s.last(), now) {
            p.push(s.last())
        } else {
            p
        }
    }
}

/// Expired entries removed; then, above the soft cap, the oldest ones too.
pub open spec fn cleaned(s: Seq<CacheEntry>, now: u64) -> Seq<CacheEntry> {
    let f = keep_fresh(s, now);
    if f.len() > CACHE_SOFT_CAP {
        f.subrange(f.len() - CACHE_SOFT_CAP, f.len() as int)
    } else {
        f
    }
}

/// The entries whose key is not `k`, in order.
pub open spec fn without_key(s: Seq<CacheEntry>, k: (Seq<char>, bool, bool, bool)) -> Seq<CacheEntry>
    decreases s.len(),
{
    if s.len() == 0 {
        s
    } else {
        let p = without_key(s.drop_last(), k);
        if key_view(s.last().key) != k {
            p.push(s.last())
        } else {
            p
        }
    }
}

/// The entries after an insertion: entries with the same key are replaced,
/// the new one goes last, and above the hard cap the cache is cleaned.
pub open spec fn after_put(s: Seq<CacheEntry>, e: CacheEntry, now: u64) -> Seq<CacheEntry> {
    let t = without_key(s, key_view(e.key)).push(e);
    if t.len() > CACHE_HARD_CAP {
        cleaned(t, now)
    } else {
        t
    }
}

proof fn lemma_without_key_excludes(s: Seq<CacheEntry>, k: (Seq<char>, bool, bool, bool))
    ensures
        forall|i: int|
            0 <= i < without_key(s, k).len() ==> key_view((#[trigger] without_key(s, k)[i]).key) != k,
    decreases s.len(),
{
    if s.len() > 0 {
        let p = without_key(s.drop_last(), k);
        lemma_without_key_excludes(s.drop_last(), k);
        let w = without_key(s, k);
        assert forall|i: int| 0 <= i < w.len() implies key_view((#[trigger] w[i]).key) != k by {
            if i < p.len() {
                assert(w[i] == p[i]);
            }
        }
    }
}

proof fn lemma_keep_fresh_excludes(s: Seq<CacheEntry>, k: (Seq<char>, bool, bool, bool), now: u64)
    requires
        forall|i: int| 0 <= i < s.len() ==> key_view((#[trigger] s[i]).key) != k,
    ensures
        forall|i: int|
            0 <= i < keep_fresh(s, now).len() ==> key_view((#[trigger] keep_fresh(s, now)[i]).key) != k,
    decreases s.len(),
{
    if s.len() > 0 {
        let p = s.drop_last();
        assert forall|i: int| 0 <= i < p.len() implies key_view((#[trigger] p[i]).key) != k by {
            assert(p[i] == s[i]);
        }
        lemma_keep_fresh_excludes(p, k, now);
        assert(s.last() == s[s.len() - 1]);
        let q = keep_fresh(p, now);
        let w = keep_fresh(s, now);
        assert forall|i: int| 0 <= i < w.len() implies key_view((#[trigger] w[i]).key) != k by {
            if i < q.len() {
                assert(w[i] == q[i]);
            }
        }
    }
}

proof fn lemma_key_index_last(u: Seq<CacheEntry>, e: CacheEntry, i: int)
    requires
        0 <= i <= u.len(),
        forall|j: int| i <= j < u.len() ==> key_view((#[trigger] u[j]).key) != key_view(e.key),
    ensures
        key_index_from(u.push(e), key_view(e.key), i) == Some(u.len() as int),
    decreases u.len() - i,
{
    if i < u.len() {
        assert(u.push(e)[i] == u[i]);
        lemma_key_index_last(u, e, i + 1);
    } else {
        assert(u.push(e)[i] == e);
    }
}

/// After an insertion at `now` the new entry is the last one, and it is the
/// entry that a lookup of its key finds.
pub proof fn lemma_put_then_find(s: Seq<CacheEntry>, e: CacheEntry, now: u64)
    requires
        e.created_at == now,
    ensures
        after_put(s, e, now).len() > 0,
        after_put(s, e, now).last() == e,
        key_index(after_put(s, e, now), key_view(e.key)) == Some(after_put(s, e, now).len() - 1),
{
    let k = key_view(e.key);
    let u = without_key(s, k);
    lemma_without_key_excludes(s, k);
    let t = u.push(e);
    if t.len() > CACHE_HARD_CAP {
        assert(t.drop_last() =~= u);
        assert(is_fresh(e, now));
        let kf = keep_fresh(u, now);
        lemma_keep_fresh_excludes(u, k, now);
        let f = keep_fresh(t, now);
        assert(f == kf.push(e));
        if f.len() > CACHE_SOFT_CAP {
            let a = f.len() - CACHE_SOFT_CAP;
            let w = kf.subrange(a, kf.len() as int);
            assert(f.subrange(a, f.len() as int) =~= w.push(e));
            assert forall|j: int| 0 <= j < w.len() implies key_view((#[trigger] w[j]).key) != k by {
                assert(w[j] == kf[j + a]);
            }
            lemma_key_index_last(w, e, 0);
        } else {
            lemma_key_index_last(kf, e, 0);
        }
    } else {
        lemma_key_index_last(u, e, 0);
    }
}

fn same_chars(a: &Vec<char>, b: &Vec<char>) -> (r: bool)
    ensures
        r == (a@ == b@),
{
    if a.len() != b.len() {
        return false;
    }
    let mut k: usize = 0;
    while k < a.len()
        invariant
            k <= a@.len() == b@.len(),
            forall|j: int| 0 <= j < k ==> a@[j] == b@[j],
        decreases a@.len() - k,
    {
        if a[k] != b[k] {
            return false;
        }
        k = k + 1;
    }
    assert(a@ =~= b@);
    true
}

fn same_key(a: &CacheKey, b: &CacheKey) -> (r: bool)
    ensures
        r == (key_view(*a) == key_view(*b)),
{
    a.auto_correct == b.auto_correct && a.smart_suggestions == b.smart_suggestions
        && a.style_checks == b.style_checks && same_chars(&a.text, &b.text)
}

fn fresh(e: &CacheEntry, now: u64) -> (r: bool)
    ensures
        r == is_fresh(*e, now),
{
    if now >= e.created_at {
        now - e.created_at <= CACHE_TTL_MS
    } else {
        true
    }
}

impl ResultCache {
    pub fn new() -> (r: ResultCache)
        ensures
            r.entries@.len() == 0,
    {
        ResultCache { entries: Vec::new() }
    }

    pub fn len(&self) -> (r: usize)
        ensures
            r == self.entries@.len(),
    {
        self.entries.len()
    }

    pub fn clear(&mut self)
        ensures
            final(self).entries@.len() == 0,
    {
        self.entries.clear();
    }

    /// The index of the entry with key `k`.
    pub fn find(&self, k: &CacheKey) -> (r: Option<usize>)
        ensures
            match r {
                Some(i) => key_index(self.entries@, key_view(*k)) == Some(i as int) && i
                    < self.entries@.len(),
                None => key_index(self.entries@, key_view(*k)) is None,
            },
    {
        let mut i: usize = 0;
        while i < self.entries.len()
            invariant
                i <= self.entries@.len(),
                key_index(self.entries@, key_view(*k)) == key_index_from(
                    self.entries@,
                    key_view(*k),
                    i as int,
                ),
            decreases self.entries@.len() - i,
        {
            if same_key(&self.entries[i].key, k) {
                return Some(i);
            }
            i = i + 1;
        }
        None
    }

    /// A copy of the valid result stored under `k`; an expired one is removed.
    pub fn get(&mut self, k: &CacheKey, now: u64) -> (r: Option<GrammarCheckResult>)
        ensures
            match key_index(old(self).entries@, key_view(*k)) {
                Some(i) => if is_fresh(old(self).entries@[i], now) {
                    r matches Some(x) && same_result(x, old(self).entries@[i].result)
                        && final(self).entries@ == old(self).entries@
                } else {
                    r is None && final(self).entries@ == old(self).entries@.remove(i)
                },
                None => r is None && final(self).entries@ == old(self).entries@,
            },
    {
        match self.find(k) {
            Some(i) => {
                if fresh(&self.entries[i], now) {
                    Some(self.entries[i].result.duplicate())
                } else {
                    self.entries.remove(i);
                    None
                }
            },
            None => None,
        }
    }

    /// Removes the expired entries; then, while above the soft cap, the oldest.
    pub fn cleanup(&mut self, now: u64)
        ensures
            final(self).entries@ == cleaned(old(self).entries@, now),
    {
        let ghost orig = self.entries@;
        let n = self.entries.len();
        let mut i: usize = 0;
        let mut j: usize = 0;
        proof {
            assert(orig.subrange(0, 0) =~= Seq::<CacheEntry>::empty());
            assert(self.entries@ =~= keep_fresh(orig.subrange(0, 0), now) + orig.subrange(0, orig.len() as int));
        }
        while j < n
            invariant
                n == orig.len(),
                i <= j <= orig.len(),
                i == keep_fresh(orig.subrange(0, j as int), now).len(),
                self.entries@ == keep_fresh(orig.subrange(0, j as int), now) + orig.subrange(
                    j as int,
                    orig.len() as int,
                ),
            decreases orig.len() - j,
        {
            let ghost kept = keep_fresh(orig.subrange(0, j as int), now);
            proof {
                let s = orig.subrange(0, j + 1);
                assert(s.drop_last() =~= orig.subrange(0, j as int));
                assert(s.last() == orig[j as int]);
                assert(self.entries@[i as int] == orig[j as int]);
            }
            if fresh(&self.entries[i], now) {
                proof {
                    assert(kept.push(orig[j as int]) + orig.subrange(j + 1, orig.len() as int)
                        =~= kept + orig.subrange(j as int, orig.len() as int));
                }
                i = i + 1;
            } else {
                self.entries.remove(i);
                proof {
                    assert(self.entries@ =~= kept + orig.subrange(j + 1, orig.len() as int));
                }
            }
            j = j + 1;
        }
        proof {
            assert(orig.subrange(0, orig.len() as int) =~= orig);
            assert(self.entries@ =~= keep_fresh(orig, now));
        }
        let ghost f = self.entries@;
        assert(f.subrange(0, f.len() as int) =~= f);
        while self.entries.len() > CACHE_SOFT_CAP
            invariant
                self.entries@.len() <= f.len(),
                f.len() > CACHE_SOFT_CAP ==> self.entries@.len() >= CACHE_SOFT_CAP,
                f.len() <= CACHE_SOFT_CAP ==> self.entries@ == f,
                self.entries@ == f.subrange(f.len() - self.entries@.len(), f.len() as int),
            decreases self.entries@.len(),
        {
            self.entries.remove(0);
            proof {
                assert(self.entries@ =~= f.subrange(f.len() - self.entries@.len(), f.len() as int));
            }
        }
    }

    /// Removes every entry with key `k`.
    fn remove_key(&mut self, k: &CacheKey)
        ensures
            final(self).entries@ == without_key(old(self).entries@, key_view(*k)),
    {
        let ghost orig = self.entries@;
        let n = self.entries.len();
        let mut i: usize = 0;
        let mut j: usize = 0;
        proof {
            assert(orig.subrange(0, 0) =~= Seq::<CacheEntry>::empty());
            assert(self.entries@ =~= without_key(orig.subrange(0, 0), key_view(*k)) + orig.subrange(
                0,
                orig.len() as int,
            ));
        }
        while j < n
            invariant
                n == orig.len(),
                i <= j <= orig.len(),
                i == without_key(orig.subrange(0, j as int), key_view(*k)).len(),
                self.entries@ == without_key(orig.subrange(0, j as int), key_view(*k)) + orig.subrange(
                    j as int,
                    orig.len() as int,
                ),
            decreases orig.len() - j,
        {
            let ghost kept = without_key(orig.subrange(0, j as int), key_view(*k));
            proof {
                let s = orig.subrange(0, j + 1);
                assert(s.drop_last() =~= orig.subrange(0, j as int));
                assert(s.last() == orig[j as int]);
                assert(self.entries@[i as int] == orig[j as int]);
            }
            if !same_key(&self.entries[i].key, k) {
                proof {
                    assert(kept.push(orig[j as int]) + orig.subrange(j + 1, orig.len() as int)
                        =~= kept + orig.subrange(j as int, orig.len() as int));
                }
                i = i + 1;
            } else {
                self.entries.remove(i);
                proof {
                    assert(self.entries@ =~= kept + orig.subrange(j + 1, orig.len() as int));
                }
            }
            j = j + 1;
        }
        proof {
            assert(orig.subrange(0, orig.len() as int) =~= orig);
            assert(self.entries@ =~= without_key(orig, key_view(*k)));
        }
    }

    /// Stores `result` under `k` at time `now`, replacing any entry with the
    /// same key; above the hard cap the cache is then cleaned.
    pub fn put(&mut self, k: CacheKey, result: GrammarCheckResult, now: u64)
        ensures
            final(self).entries@ == after_put(
                old(self).entries@,
                CacheEntry { key: k, result, created_at: now },
                now,
            ),
    {
        self.remove_key(&k);
        self.entries.push(CacheEntry { key: k, result, created_at: now });
        if self.entries.len() > CACHE_HARD_CAP {
            self.cleanup(now);
        }
    }
}

} // verus!
