//! Header collection shared by requests and responses: an insertion-ordered
//! list of key/value pairs with map semantics — the last insertion of a key
//! wins, and keys stay unique.
use vstd::prelude::*;

use crate::strutil::str_eq;

verus! {

/// What inserting `(k, v)` does to a pair list: the first pair with key `k`
/// is replaced in place; with no such pair, `(k, v)` is appended.
pub open spec fn insert_pair(
    hs: Seq<(Seq<char>, Seq<char>)>,
    k: Seq<char>,
    v: Seq<char>,
) -> Seq<(Seq<char>, Seq<char>)>
    decreases hs.len(),
{
    if hs.len() == 0 {
        seq![(k, v)]
    } else if hs[0].0 == k {
        seq![(k, v)] + hs.drop_first()
    } else {
        seq![hs[0]] + insert_pair(hs.drop_first(), k, v)
    }
}

/// The value stored under `k`, going by the first pair whose key is `k`.
pub open spec fn lookup_pair(hs: Seq<(Seq<char>, Seq<char>)>, k: Seq<char>) -> Option<Seq<char>>
    decreases hs.len(),
{
    if hs.len() == 0 {
        None
    } else if hs[0].0 == k {
        Some(hs[0].1)
    } else {
        lookup_pair(hs.drop_first(), k)
    }
}

/// No two pairs share a key.
pub open spec fn distinct_keys(hs: Seq<(Seq<char>, Seq<char>)>) -> bool {
    forall|i: int, j: int| 0 <= i < j < hs.len() ==> hs[i].0 != hs[j].0
}

/// Some pair carries the key `k`.
pub open spec fn key_in(hs: Seq<(Seq<char>, Seq<char>)>, k: Seq<char>) -> bool {
    exists|m: int| 0 <= m < hs.len() && hs[m].0 == k
}

/// When the first match sits at index `i`, inserting updates that index.
pub proof fn lemma_insert_pair_match(
    hs: Seq<(Seq<char>, Seq<char>)>,
    k: Seq<char>,
    v: Seq<char>,
    i: int,
)
    requires
        0 <= i < hs.len(),
        hs[i].0 == k,
        forall|j: int| 0 <= j < i ==> hs[j].0 != k,
    ensures
        insert_pair(hs, k, v) =~= hs.update(i, (k, v)),
    decreases i,
{
    if i == 0 {
    } else {
        lemma_insert_pair_match(hs.drop_first(), k, v, i - 1);
    }
}

/// With no matching key, inserting appends.
pub proof fn lemma_insert_pair_fresh(hs: Seq<(Seq<char>, Seq<char>)>, k: Seq<char>, v: Seq<char>)
    requires
        forall|j: int| 0 <= j < hs.len() ==> hs[j].0 != k,
    ensures
        insert_pair(hs, k, v) =~= hs.push((k, v)),
    decreases hs.len(),
{
    if hs.len() > 0 {
        lemma_insert_pair_fresh(hs.drop_first(), k, v);
    }
}

/// Looking a key up after an insertion: the inserted key maps to the new
/// value and every other key is untouched.
pub proof fn lemma_lookup_insert(
    hs: Seq<(Seq<char>, Seq<char>)>,
    k: Seq<char>,
    v: Seq<char>,
    q: Seq<char>,
)
    ensures
        lookup_pair(insert_pair(hs, k, v), q) == if q == k {
            Some(v)
        } else {
            lookup_pair(hs, q)
        },
    decreases hs.len(),
{
    let r = insert_pair(hs, k, v);
    if hs.len() == 0 {
        assert(r == seq![(k, v)]);
        assert(r[0] == (k, v));
        if q != k {
            assert(r.drop_first() =~= Seq::<(Seq<char>, Seq<char>)>::empty());
            assert(lookup_pair(r.drop_first(), q) is None);
        }
    } else if hs[0].0 == k {
        assert(r == seq![(k, v)] + hs.drop_first());
        assert(r[0] == (k, v));
        if q != k {
            assert(r.drop_first() =~= hs.drop_first());
            assert(lookup_pair(r, q) == lookup_pair(r.drop_first(), q));
            assert(lookup_pair(hs, q) == lookup_pair(hs.drop_first(), q));
        }
    } else {
        assert(r == seq![hs[0]] + insert_pair(hs.drop_first(), k, v));
        assert(r[0] == hs[0]);
        assert(r.drop_first() =~= insert_pair(hs.drop_first(), k, v));
        lemma_lookup_insert(hs.drop_first(), k, v, q);
        if hs[0].0 == q {
            assert(lookup_pair(r, q) == Some(hs[0].1));
            assert(lookup_pair(hs, q) == Some(hs[0].1));
        } else {
            assert(lookup_pair(r, q) == lookup_pair(r.drop_first(), q));
            assert(lookup_pair(hs, q) == lookup_pair(hs.drop_first(), q));
        }
    }
}

/// Inserting keeps keys distinct, and introduces no key besides `k`.
pub proof fn lemma_insert_pair_wf(hs: Seq<(Seq<char>, Seq<char>)>, k: Seq<char>, v: Seq<char>)
    requires
        distinct_keys(hs),
    ensures
        distinct_keys(insert_pair(hs, k, v)),
        forall|j: int|
            0 <= j < insert_pair(hs, k, v).len() ==> (#[trigger] insert_pair(hs, k, v)[j].0 == k
                || key_in(hs, insert_pair(hs, k, v)[j].0)),
    decreases hs.len(),
{
    let r = insert_pair(hs, k, v);
    if hs.len() == 0 {
        assert(r == seq![(k, v)]);
        assert(r[0].0 == k);
    } else if hs[0].0 == k {
        assert(r == seq![(k, v)] + hs.drop_first());
        assert forall|i: int, j: int| 0 <= i < j < r.len() implies r[i].0 != r[j].0 by {
            if i == 0 {
                assert(r[j] == hs[j]);
                assert(hs[0].0 != hs[j].0);
            } else {
                assert(r[i] == hs[i] && r[j] == hs[j]);
            }
        }
        assert forall|j: int| 0 <= j < r.len() implies (r[j].0 == k || key_in(hs, r[j].0)) by {
            if j > 0 {
                assert(r[j] == hs[j]);
                assert(0 <= j < hs.len() && hs[j].0 == r[j].0);
            }
        }
    } else {
        let tail = hs.drop_first();
        assert(r == seq![hs[0]] + insert_pair(tail, k, v));
        assert forall|i: int, j: int| 0 <= i < j < tail.len() implies tail[i].0 != tail[j].0 by {
            assert(tail[i] == hs[i + 1] && tail[j] == hs[j + 1]);
        }
        lemma_insert_pair_wf(tail, k, v);
        let rt = insert_pair(tail, k, v);
        assert forall|i: int, j: int| 0 <= i < j < r.len() implies r[i].0 != r[j].0 by {
            if i == 0 {
                assert(r[j] == rt[j - 1]);
                if rt[j - 1].0 == k {
                } else {
                    assert(key_in(tail, rt[j - 1].0));
                    let m = choose|m: int| 0 <= m < tail.len() && tail[m].0 == rt[j - 1].0;
                    assert(tail[m] == hs[m + 1]);
                    assert(hs[0].0 != hs[m + 1].0);
                }
            } else {
                assert(r[i] == rt[i - 1] && r[j] == rt[j - 1]);
            }
        }
        assert forall|j: int| 0 <= j < r.len() implies (r[j].0 == k || key_in(hs, r[j].0)) by {
            if j == 0 {
                assert(r[0] == hs[0]);
                assert(0 <= 0 < hs.len() && hs[0].0 == r[0].0);
            } else {
                assert(r[j] == rt[j - 1]);
                if rt[j - 1].0 != k {
                    assert(key_in(tail, rt[j - 1].0));
                    let m = choose|m: int| 0 <= m < tail.len() && tail[m].0 == rt[j - 1].0;
                    assert(tail[m] == hs[m + 1]);
                    assert(0 <= m + 1 < hs.len() && hs[m + 1].0 == r[j].0);
                }
            }
        }
    }
}

/// The first matching index is the one `lookup_pair` reports.
pub proof fn lemma_lookup_first_match(hs: Seq<(Seq<char>, Seq<char>)>, k: Seq<char>, i: int)
    requires
        0 <= i < hs.len(),
        hs[i].0 == k,
        forall|j: int| 0 <= j < i ==> hs[j].0 != k,
    ensures
        lookup_pair(hs, k) == Some(hs[i].1),
    decreases i,
{
    if i > 0 {
        lemma_lookup_first_match(hs.drop_first(), k, i - 1);
    }
}

/// When `lookup_pair` reports nothing, no pair carries the key.
pub proof fn lemma_lookup_none_inv(hs: Seq<(Seq<char>, Seq<char>)>, k: Seq<char>)
    requires
        lookup_pair(hs, k) is None,
    ensures
        forall|j: int| 0 <= j < hs.len() ==> (#[trigger] hs[j]).0 != k,
    decreases hs.len(),
{
    if hs.len() > 0 {
        lemma_lookup_none_inv(hs.drop_first(), k);
        assert forall|j: int| 0 <= j < hs.len() implies (#[trigger] hs[j]).0 != k by {
            if j > 0 {
                assert(hs.drop_first()[j - 1] == hs[j]);
            }
        }
    }
}

/// With no matching key, `lookup_pair` reports nothing.
pub proof fn lemma_lookup_none(hs: Seq<(Seq<char>, Seq<char>)>, k: Seq<char>)
    requires
        forall|j: int| 0 <= j < hs.len() ==> hs[j].0 != k,
    ensures
        lookup_pair(hs, k) is None,
    decreases hs.len(),
{
    if hs.len() > 0 {
        lemma_lookup_none(hs.drop_first(), k);
    }
}

/// An insertion-ordered header map; the view is the pair list itself.
#[derive(Debug, Clone)]
pub struct Headers {
    pairs: Vec<(String, String)>,
}

impl View for Headers {
    type V = Seq<(Seq<char>, Seq<char>)>;

    closed spec fn view(&self) -> Seq<(Seq<char>, Seq<char>)> {
        self.pairs@.map_values(|p: (String, String)| (p.0@, p.1@))
    }
}

impl Headers {
    /// Keys are pairwise distinct; every operation keeps this.
    pub open spec fn wf(self) -> bool {
        distinct_keys(self@)
    }

    pub fn new() -> (r: Headers)
        ensures
            r@ == Seq::<(Seq<char>, Seq<char>)>::empty(),
            r.wf(),
    {
        let r = Headers { pairs: Vec::new() };
        proof {
            assert(r@ =~= Seq::<(Seq<char>, Seq<char>)>::empty());
        }
        r
    }

    pub fn len(&self) -> (n: usize)
        ensures
            n == self@.len(),
    {
        self.pairs.len()
    }

    /// The key of the pair at `i` in insertion order.
    pub fn key_at(&self, i: usize) -> (r: &String)
        requires
            i < self@.len(),
        ensures
            r@ == self@[i as int].0,
    {
        &self.pairs[i].0
    }

    /// The value of the pair at `i` in insertion order.
    pub fn value_at(&self, i: usize) -> (r: &String)
        requires
            i < self@.len(),
        ensures
            r@ == self@[i as int].1,
    {
        &self.pairs[i].1
    }

    /// Stores `value` under `key`; a later insertion of the same key wins.
    pub fn insert(&mut self, key: String, value: String)
        ensures
            final(self)@ == insert_pair(old(self)@, key@, value@),
            old(self).wf() ==> final(self).wf(),
    {
        let ghost hs = old(self)@;
        let n = self.pairs.len();
        let mut i: usize = 0;
        while i < n
            invariant
                0 <= i <= n,
                n == self@.len(),
                hs == old(self)@,
                hs == self@,
                forall|j: int| 0 <= j < i ==> self@[j].0 != key@,
            decreases n - i,
        {
            if str_eq(self.pairs[i].0.as_str(), key.as_str()) {
                self.pairs.remove(i);
                self.pairs.insert(i, (key, value));
                proof {
                    lemma_insert_pair_match(hs, key@, value@, i as int);
                    assert(self@ =~= hs.update(i as int, (key@, value@)));
                    if distinct_keys(hs) {
                        lemma_insert_pair_wf(hs, key@, value@);
                    }
                }
                return ;
            }
            i = i + 1;
        }
        self.pairs.push((key, value));
        proof {
            lemma_insert_pair_fresh(hs, key@, value@);
            assert(self@ =~= hs.push((key@, value@)));
            if distinct_keys(hs) {
                lemma_insert_pair_wf(hs, key@, value@);
            }
        }
    }

    /// The value stored under `key`, when there is one.
    pub fn get<'a>(&'a self, key: &str) -> (r: Option<&'a String>)
        ensures
            match r {
                Some(v) => lookup_pair(self@, key@) == Some(v@),
                None => lookup_pair(self@, key@) is None,
            },
    {
        let n = self.pairs.len();
        let mut i: usize = 0;
        while i < n
            invariant
                0 <= i <= n,
                n == self@.len(),
                forall|j: int| 0 <= j < i ==> self@[j].0 != key@,
            decreases n - i,
        {
            if str_eq(self.pairs[i].0.as_str(), key) {
                proof {
                    lemma_lookup_first_match(self@, key@, i as int);
                }
                return Some(&self.pairs[i].1);
            }
            i = i + 1;
        }
        proof {
            lemma_lookup_none(self@, key@);
        }
        None
    }
}

} // verus!
