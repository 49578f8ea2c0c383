//! Association lists keyed by strings: sequences of `(key, value)` pairs in
//! which a key is looked up at its first occurrence.
use vstd::prelude::*;
use crate::text::{str_eq, string_of};

verus! {

/// Index of the first pair of `m` whose key is `key`, or `m.len()`.
pub open spec fn key_pos<V>(m: Seq<(String, V)>, key: Seq<char>) -> nat
    decreases m.len(),
{
    if m.len() == 0 {
        0
    } else if m[0].0@ == key {
        0
    } else {
        1 + key_pos(m.drop_first(), key)
    }
}

/// Whether `m` has a pair with key `key`.
pub open spec fn has_key<V>(m: Seq<(String, V)>, key: Seq<char>) -> bool {
    key_pos(m, key) < m.len()
}

/// The value of the first pair of `m` with key `key`.
pub open spec fn lookup<V>(m: Seq<(String, V)>, key: Seq<char>) -> Option<V> {
    if has_key(m, key) {
        Some(m[key_pos(m, key) as int].1)
    } else {
        None
    }
}

/// `key_pos` is the first index holding the key.
pub open spec fn first_key_at<V>(m: Seq<(String, V)>, key: Seq<char>, p: int) -> bool {
    &&& 0 <= p <= m.len()
    &&& forall|j: int| 0 <= j < p ==> #[trigger] m[j].0@ != key
    &&& p < m.len() ==> m[p].0@ == key
}

/// Position of the first pair of `m` with key `key`, or `m.len()`.
pub fn key_index<V>(m: &Vec<(String, V)>, key: &str) -> (r: usize)
    ensures
        r == key_pos(m@, key@),
        r <= m.len(),
{
    let mut i: usize = 0;
    assert(m@.subrange(0, m.len() as int) =~= m@);
    while i < m.len()
        invariant
            i <= m.len(),
            key_pos(m@, key@) == i + key_pos(m@.subrange(i as int, m.len() as int), key@),
        decreases m.len() - i,
    {
        let ghost rest = m@.subrange(i as int, m.len() as int);
        assert(rest.drop_first() =~= m@.subrange(i + 1, m.len() as int));
        if str_eq(m[i].0.as_str(), key) {
            return i;
        }
        i = i + 1;
    }
    i
}

pub proof fn lemma_key_pos<V>(m: Seq<(String, V)>, key: Seq<char>)
    ensures
        first_key_at(m, key, key_pos(m, key) as int),
    decreases m.len(),
{
    if m.len() > 0 && m[0].0@ != key {
        lemma_key_pos(m.drop_first(), key);
        assert forall|j: int| 0 <= j < key_pos(m, key) implies #[trigger] m[j].0@ != key by {
            if j > 0 {
                assert(m[j] == m.drop_first()[j - 1]);
            }
        }
    }
}

pub proof fn lemma_key_pos_unique<V>(m: Seq<(String, V)>, key: Seq<char>, p: int)
    requires
        first_key_at(m, key, p),
    ensures
        key_pos(m, key) == p,
    decreases m.len(),
{
    if m.len() > 0 && p > 0 {
        assert forall|j: int| 0 <= j < p - 1 implies #[trigger] m.drop_first()[j].0@ != key by {
            assert(m.drop_first()[j] == m[j + 1]);
        }
        lemma_key_pos_unique(m.drop_first(), key, p - 1);
    }
}

/// Replacing the pair at the first occurrence of its key changes the value
/// of that key only.
pub proof fn lemma_lookup_after_set<V>(m: Seq<(String, V)>, pos: int, e: (String, V))
    requires
        0 <= pos < m.len(),
        e.0@ == m[pos].0@,
        key_pos(m, e.0@) == pos,
    ensures
        forall|k: Seq<char>|
            #![trigger lookup(m.update(pos, e), k)]
            lookup(m.update(pos, e), k) == if k == e.0@ {
                Some(e.1)
            } else {
                lookup(m, k)
            },
{
    let n = m.update(pos, e);
    assert forall|k: Seq<char>| #[trigger] lookup(n, k) == if k == e.0@ {
        Some(e.1)
    } else {
        lookup(m, k)
    } by {
        lemma_key_pos(m, k);
        let p = key_pos(m, k);
        if k == e.0@ {
            assert forall|j: int| 0 <= j < pos implies #[trigger] n[j].0@ != k by {
                assert(n[j] == m[j]);
            }
            lemma_key_pos_unique(n, k, pos);
        } else {
            assert forall|j: int| 0 <= j < p implies #[trigger] n[j].0@ != k by {
                assert(n[j].0@ == m[j].0@);
            }
            if p < m.len() {
                assert(n[p as int].0@ == m[p as int].0@);
            }
            lemma_key_pos_unique(n, k, p as int);
            if p < m.len() && p != pos {
                assert(n[p as int] == m[p as int]);
            }
        }
    }
}

/// Appending a pair with a new key adds that key only.
pub proof fn lemma_lookup_after_push<V>(m: Seq<(String, V)>, e: (String, V))
    requires
        !has_key(m, e.0@),
    ensures
        forall|k: Seq<char>|
            #![trigger lookup(m.push(e), k)]
            lookup(m.push(e), k) == if k == e.0@ {
                Some(e.1)
            } else {
                lookup(m, k)
            },
{
    let n = m.push(e);
    assert forall|k: Seq<char>| #[trigger] lookup(n, k) == if k == e.0@ {
        Some(e.1)
    } else {
        lookup(m, k)
    } by {
        lemma_key_pos(m, k);
        let p = key_pos(m, k);
        assert forall|j: int| 0 <= j < p implies #[trigger] n[j].0@ != k by {
            assert(n[j] == m[j]);
        }
        if p < m.len() {
            assert(n[p as int] == m[p as int]);
            lemma_key_pos_unique(n, k, p as int);
        } else if k == e.0@ {
            assert(n[m.len() as int] == e);
            lemma_key_pos_unique(n, k, m.len() as int);
        } else {
            assert(n[m.len() as int] == e);
            lemma_key_pos_unique(n, k, n.len() as int);
        }
    }
}

/// A pair of `o` is the first with its key exactly when no earlier pair
/// has that key.
pub proof fn lemma_first_occurrence<V>(o: Seq<(String, V)>, j: int)
    requires
        0 <= j < o.len(),
    ensures
        (key_pos(o, o[j].0@) == j) == !has_key(o.take(j), o[j].0@),
{
    let k = o[j].0@;
    lemma_key_pos(o, k);
    lemma_key_pos(o.take(j), k);
    let p = key_pos(o, k);
    if p < j {
        assert(o.take(j)[p as int] == o[p as int]);
    } else {
        assert(p == j);
        let q = key_pos(o.take(j), k);
        if q < j {
            assert(o.take(j)[q as int] == o[q as int]);
        }
    }
}

/// Extending a prefix by one pair changes the lookup of that pair's key
/// only, and only when the key is new.
pub proof fn lemma_lookup_take_push<V>(o: Seq<(String, V)>, j: int)
    requires
        0 <= j < o.len(),
    ensures
        forall|k: Seq<char>|
            #![trigger lookup(o.take(j + 1), k)]
            lookup(o.take(j + 1), k) == if k == o[j].0@ && !has_key(o.take(j), k) {
                Some(o[j].1)
            } else {
                lookup(o.take(j), k)
            },
        forall|k: Seq<char>|
            #![trigger has_key(o.take(j + 1), k)]
            has_key(o.take(j + 1), k) == (has_key(o.take(j), k) || k == o[j].0@),
{
    let t = o.take(j);
    let t1 = o.take(j + 1);
    assert(t1 =~= t.push(o[j]));
    assert forall|k: Seq<char>|
        #![trigger lookup(t1, k)]
        #![trigger has_key(t1, k)]
        lookup(t1, k) == if k == o[j].0@ && !has_key(t, k) {
            Some(o[j].1)
        } else {
            lookup(t, k)
        } && has_key(t1, k) == (has_key(t, k) || k == o[j].0@) by {
        lemma_key_pos(t, k);
        let p = key_pos(t, k);
        assert forall|i: int| 0 <= i < p implies #[trigger] t1[i].0@ != k by {
            assert(t1[i] == t[i]);
        }
        if p < t.len() {
            assert(t1[p as int] == t[p as int]);
            lemma_key_pos_unique(t1, k, p as int);
        } else if k == o[j].0@ {
            lemma_key_pos_unique(t1, k, t.len() as int);
        } else {
            lemma_key_pos_unique(t1, k, t1.len() as int);
        }
    }
}

/// Whether no two pairs of `m` share a key.
pub open spec fn keys_unique<V>(m: Seq<(String, V)>) -> bool {
    forall|i: int, j: int| 0 <= i < j < m.len() ==> m[i].0@ != m[j].0@
}

/// Removing a pair from a list without repeated keys removes its key only.
pub proof fn lemma_lookup_after_remove<V>(m: Seq<(String, V)>, j: int)
    requires
        keys_unique(m),
        0 <= j < m.len(),
    ensures
        keys_unique(m.remove(j)),
        forall|k: Seq<char>|
            #![trigger lookup(m.remove(j), k)]
            lookup(m.remove(j), k) == if k == m[j].0@ {
                None
            } else {
                lookup(m, k)
            },
        forall|k: Seq<char>|
            #![trigger has_key(m.remove(j), k)]
            has_key(m.remove(j), k) == (has_key(m, k) && k != m[j].0@),
{
    let n = m.remove(j);
    assert forall|i: int| 0 <= i < n.len() implies #[trigger] n[i] == if i < j {
        m[i]
    } else {
        m[i + 1]
    } by {}
    assert forall|a: int, b: int| 0 <= a < b < n.len() implies n[a].0@ != n[b].0@ by {
        let a0 = if a < j { a } else { a + 1 };
        let b0 = if b < j { b } else { b + 1 };
        assert(n[a] == m[a0] && n[b] == m[b0]);
    }
    assert forall|k: Seq<char>|
        #![trigger lookup(n, k)]
        #![trigger has_key(n, k)]
        lookup(n, k) == (if k == m[j].0@ {
            None
        } else {
            lookup(m, k)
        }) && has_key(n, k) == (has_key(m, k) && k != m[j].0@) by {
        lemma_key_pos(m, k);
        let p = key_pos(m, k) as int;
        if k == m[j].0@ {
            assert forall|i: int| 0 <= i < n.len() implies #[trigger] n[i].0@ != k by {
                let i0 = if i < j { i } else { i + 1 };
                assert(n[i] == m[i0]);
            }
            lemma_key_pos_unique(n, k, n.len() as int);
        } else if p == m.len() {
            assert forall|i: int| 0 <= i < n.len() implies #[trigger] n[i].0@ != k by {
                let i0 = if i < j { i } else { i + 1 };
                assert(n[i] == m[i0]);
            }
            lemma_key_pos_unique(n, k, n.len() as int);
        } else if p < j {
            assert forall|i: int| 0 <= i < p implies #[trigger] n[i].0@ != k by {
                assert(n[i] == m[i]);
            }
            assert(n[p] == m[p]);
            lemma_key_pos_unique(n, k, p);
        } else {
            assert(p > j);
            assert forall|i: int| 0 <= i < p - 1 implies #[trigger] n[i].0@ != k by {
                let i0 = if i < j { i } else { i + 1 };
                assert(n[i] == m[i0]);
            }
            assert(n[p - 1] == m[p]);
            lemma_key_pos_unique(n, k, p - 1);
        }
    }
}

/// Keys stay distinct when the pair at the first occurrence of a key is
/// replaced by one with the same key, or when a pair with a new key is
/// appended.
pub proof fn lemma_unique_after_put<V>(m: Seq<(String, V)>, e: (String, V))
    requires
        keys_unique(m),
    ensures
        has_key(m, e.0@) ==> keys_unique(m.update(key_pos(m, e.0@) as int, e)),
        !has_key(m, e.0@) ==> keys_unique(m.push(e)),
{
    lemma_key_pos(m, e.0@);
    let p = key_pos(m, e.0@) as int;
    if has_key(m, e.0@) {
        let n = m.update(p, e);
        assert forall|a: int, b: int| 0 <= a < b < n.len() implies n[a].0@ != n[b].0@ by {
            assert(n[a].0@ == m[a].0@);
            assert(n[b].0@ == m[b].0@);
        }
    } else {
        let n = m.push(e);
        assert forall|a: int, b: int| 0 <= a < b < n.len() implies n[a].0@ != n[b].0@ by {
            assert(n[a] == m[a]);
            if b < m.len() {
                assert(n[b] == m[b]);
            }
        }
    }
}

/// A pair with key `k` makes `k` a key of the list.
pub proof fn lemma_has_key_at<V>(m: Seq<(String, V)>, k: Seq<char>, i: int)
    requires
        0 <= i < m.len(),
        m[i].0@ == k,
    ensures
        has_key(m, k),
        key_pos(m, k) <= i,
{
    lemma_key_pos(m, k);
}

/// In a list without repeated keys, a pair of it is found by its key.
pub proof fn lemma_lookup_member<V>(m: Seq<(String, V)>, x: (String, V))
    requires
        keys_unique(m),
        m.contains(x),
    ensures
        lookup(m, x.0@) == Some(x.1),
{
    let w = choose|w: int| 0 <= w < m.len() && m[w] == x;
    assert forall|j: int| 0 <= j < w implies #[trigger] m[j].0@ != x.0@ by {}
    lemma_key_pos_unique(m, x.0@, w);
}

/// Gives `key` the value `v` in `m`: the first pair with that key is
/// replaced, or a pair is added at the end.
pub fn put_entry<V>(m: &mut Vec<(String, V)>, key: &str, v: V)
    ensures
        forall|k: Seq<char>|
            #![trigger lookup(final(m)@, k)]
            lookup(final(m)@, k) == if k == key@ {
                Some(v)
            } else {
                lookup(old(m)@, k)
            },
{
    let i = key_index(m, key);
    proof {
        lemma_key_pos(m@, key@);
    }
    let ghost before = m@;
    let e = (string_of(key), v);
    let ghost ge = e;
    if i < m.len() {
        m.set(i, e);
        proof {
            lemma_lookup_after_set(before, i as int, ge);
        }
    } else {
        m.push(e);
        proof {
            lemma_lookup_after_push(before, ge);
        }
    }
}

} // verus!
