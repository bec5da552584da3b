//! A small keyed table: a vector of entries whose keys are strings and unique.
//! Its abstract meaning is given by `lookup`, which finds the value stored under a key.

use vstd::prelude::*;

verus! {

/// One key/value pair of a table.
#[derive(Debug)]
pub struct Entry<V> {
    pub key: String,
    pub value: V,
}

impl<V: Copy> Clone for Entry<V> {
    fn clone(&self) -> (r: Self)
        ensures
            r == *self,
    {
        Entry { key: self.key.clone(), value: self.value }
    }
}

/// The pairs of a table, with each key seen as a sequence of characters.
pub open spec fn pairs<V>(s: Seq<Entry<V>>) -> Seq<(Seq<char>, V)> {
    s.map_values(|e: Entry<V>| (e.key@, e.value))
}

/// The value stored under `k`; of two entries with that key, the later one counts.
pub open spec fn lookup<K, V>(s: Seq<(K, V)>, k: K) -> Option<V>
    decreases s.len(),
{
    if s.len() == 0 {
        None
    } else if s.last().0 == k {
        Some(s.last().1)
    } else {
        lookup(s.drop_last(), k)
    }
}

/// No two entries share a key.
pub open spec fn keys_unique<K, V>(s: Seq<(K, V)>) -> bool {
    forall|i: int, j: int| 0 <= i < j < s.len() ==> s[i].0 != s[j].0
}

/// The value stored under `k` in a vector of entries.
pub open spec fn value_of<V>(v: Seq<Entry<V>>, k: Seq<char>) -> Option<V> {
    lookup(pairs(v), k)
}

/// The table holds no entry with a repeated key.
pub open spec fn table_wf<V>(v: Seq<Entry<V>>) -> bool {
    keys_unique(pairs(v))
}

pub proof fn lemma_lookup_found<K, V>(s: Seq<(K, V)>, i: int)
    requires
        keys_unique(s),
        0 <= i < s.len(),
    ensures
        lookup(s, s[i].0) == Some(s[i].1),
    decreases s.len(),
{
    if i != s.len() - 1 {
        let t = s.drop_last();
        assert(t[i] == s[i]);
        assert(keys_unique(t));
        lemma_lookup_found(t, i);
    }
}

pub proof fn lemma_lookup_absent<K, V>(s: Seq<(K, V)>, k: K)
    requires
        forall|i: int| 0 <= i < s.len() ==> s[i].0 != k,
    ensures
        lookup(s, k) == None::<V>,
    decreases s.len(),
{
    if s.len() > 0 {
        let t = s.drop_last();
        assert forall|i: int| 0 <= i < t.len() implies t[i].0 != k by {
            assert(t[i] == s[i]);
        }
        lemma_lookup_absent(t, k);
    }
}

/// Replacing the pair under an existing key keeps the keys unique and changes the
/// value under that key alone.
pub proof fn lemma_lookup_update<K, V>(s: Seq<(K, V)>, i: int, x: (K, V))
    requires
        keys_unique(s),
        0 <= i < s.len(),
        s[i].0 == x.0,
    ensures
        keys_unique(s.update(i, x)),
        forall|k: K| #[trigger]
            lookup(s.update(i, x), k) == if k == x.0 {
                Some(x.1)
            } else {
                lookup(s, k)
            },
{
    let t = s.update(i, x);
    assert forall|k: K| #[trigger]
        lookup(t, k) == if k == x.0 {
            Some(x.1)
        } else {
            lookup(s, k)
        } by {
        if k == x.0 {
            lemma_lookup_found(t, i);
        } else if exists|j: int| 0 <= j < s.len() && s[j].0 == k {
            let j = choose|j: int| 0 <= j < s.len() && s[j].0 == k;
            lemma_lookup_found(s, j);
            lemma_lookup_found(t, j);
        } else {
            lemma_lookup_absent(s, k);
            lemma_lookup_absent(t, k);
        }
    }
}

/// Appending a pair under a new key keeps the keys unique and adds that key alone.
pub proof fn lemma_lookup_push<K, V>(s: Seq<(K, V)>, x: (K, V))
    requires
        keys_unique(s),
        forall|j: int| 0 <= j < s.len() ==> s[j].0 != x.0,
    ensures
        keys_unique(s.push(x)),
        forall|k: K| #[trigger]
            lookup(s.push(x), k) == if k == x.0 {
                Some(x.1)
            } else {
                lookup(s, k)
            },
{
    assert(s.push(x).drop_last() =~= s);
}

/// Removing a pair keeps the keys unique and removes its key alone.
pub proof fn lemma_lookup_remove<K, V>(s: Seq<(K, V)>, i: int)
    requires
        keys_unique(s),
        0 <= i < s.len(),
    ensures
        keys_unique(s.remove(i)),
        forall|k: K| #[trigger]
            lookup(s.remove(i), k) == if k == s[i].0 {
                None
            } else {
                lookup(s, k)
            },
{
    let t = s.remove(i);
    assert forall|j: int| 0 <= j < t.len() implies #[trigger] t[j] == if j < i {
        s[j]
    } else {
        s[j + 1]
    } by {}
    assert(keys_unique(t)) by {
        assert forall|a: int, b: int| 0 <= a < b < t.len() implies t[a].0 != t[b].0 by {
            let a2 = if a < i { a } else { a + 1 };
            let b2 = if b < i { b } else { b + 1 };
            assert(t[a] == s[a2]);
            assert(t[b] == s[b2]);
        }
    }
    assert forall|k: K| #[trigger]
        lookup(t, k) == if k == s[i].0 {
            None
        } else {
            lookup(s, k)
        } by {
        if k == s[i].0 {
            assert forall|j: int| 0 <= j < t.len() implies t[j].0 != k by {
                let j2 = if j < i { j } else { j + 1 };
                assert(t[j] == s[j2]);
            }
            lemma_lookup_absent(t, k);
        } else if exists|j: int| 0 <= j < s.len() && s[j].0 == k {
            let j = choose|j: int| 0 <= j < s.len() && s[j].0 == k;
            let j2 = if j < i { j } else { j - 1 };
            assert(t[j2] == s[j]);
            lemma_lookup_found(s, j);
            lemma_lookup_found(t, j2);
        } else {
            assert forall|j: int| 0 <= j < t.len() implies t[j].0 != k by {
                let j2 = if j < i { j } else { j + 1 };
                assert(t[j] == s[j2]);
            }
            lemma_lookup_absent(s, k);
            lemma_lookup_absent(t, k);
        }
    }
}

/// A key with a value has an entry holding that value.
pub proof fn lemma_lookup_some<K, V>(s: Seq<(K, V)>, k: K)
    requires
        lookup(s, k) is Some,
    ensures
        exists|i: int| 0 <= i < s.len() && s[i].0 == k && s[i].1 == lookup(s, k)->Some_0,
    decreases s.len(),
{
    if s.last().0 != k {
        let t = s.drop_last();
        lemma_lookup_some(t, k);
        let i = choose|i: int| 0 <= i < t.len() && t[i].0 == k && t[i].1 == lookup(t, k)->Some_0;
        assert(s[i] == t[i]);
    }
}

/// Under unique keys, the value under `k` is that of the entry holding `k`, if any.
pub proof fn lemma_value_of<V>(v: Seq<Entry<V>>, k: Seq<char>)
    requires
        table_wf(v),
    ensures
        (exists|i: int| 0 <= i < v.len() && v[i].key@ == k) ==> (forall|i: int|
            0 <= i < v.len() && v[i].key@ == k ==> value_of(v, k) == Some(v[i].value)),
        (forall|i: int| 0 <= i < v.len() ==> v[i].key@ != k) ==> value_of(v, k) == None::<V>,
{
    let s = pairs(v);
    assert forall|i: int| 0 <= i < v.len() && v[i].key@ == k implies value_of(v, k) == Some(
        v[i].value,
    ) by {
        assert(s[i] == (v[i].key@, v[i].value));
        lemma_lookup_found(s, i);
    }
    if forall|i: int| 0 <= i < v.len() ==> v[i].key@ != k {
        assert forall|i: int| 0 <= i < s.len() implies s[i].0 != k by {
            assert(s[i] == (v[i].key@, v[i].value));
        }
        lemma_lookup_absent(s, k);
    }
}

/// The position of the entry under `k`, if there is one.
pub fn find_key<V>(v: &Vec<Entry<V>>, k: &String) -> (r: Option<usize>)
    ensures
        match r {
            Some(i) => i < v@.len() && v@[i as int].key@ == k@,
            None => forall|i: int| 0 <= i < v@.len() ==> v@[i].key@ != k@,
        },
{
    let mut i: usize = 0;
    while i < v.len()
        invariant
            i <= v@.len(),
            forall|j: int| 0 <= j < i ==> v@[j].key@ != k@,
        decreases v@.len() - i,
    {
        if v[i].key == *k {
            return Some(i);
        }
        i = i + 1;
    }
    None
}

/// The value stored under `k`.
pub fn get_value<V: Copy>(v: &Vec<Entry<V>>, k: &String) -> (r: Option<V>)
    requires
        table_wf(v@),
    ensures
        r == value_of(v@, k@),
{
    proof {
        lemma_value_of(v@, k@);
    }
    match find_key(v, k) {
        Some(i) => Some(v[i].value),
        None => None,
    }
}

/// Stores `val` under `k`, replacing the value that was there.
pub fn set_value<V: Copy>(v: &mut Vec<Entry<V>>, k: String, val: V)
    requires
        table_wf(old(v)@),
    ensures
        table_wf(final(v)@),
        forall|w: Seq<char>|
            #[trigger] value_of(final(v)@, w) == if w == k@ {
                Some(val)
            } else {
                value_of(old(v)@, w)
            },
        final(v)@.len() == old(v)@.len() + if value_of(old(v)@, k@) is Some {
            0int
        } else {
            1int
        },
{
    let ghost ov = v@;
    let ghost kv = k@;
    proof {
        lemma_value_of(ov, kv);
    }
    match find_key(v, &k) {
        Some(i) => {
            v.set(i, Entry { key: k, value: val });
            let ghost nv = v@;
            assert(table_wf(nv)) by {
                assert forall|a: int, b: int| 0 <= a < b < nv.len() implies pairs(nv)[a].0 != pairs(
                    nv,
                )[b].0 by {
                    assert(pairs(ov)[a].0 == ov[a].key@);
                    assert(pairs(ov)[b].0 == ov[b].key@);
                }
            }
            assert forall|w: Seq<char>| #[trigger]
                value_of(nv, w) == if w == kv {
                    Some(val)
                } else {
                    value_of(ov, w)
                } by {
                lemma_value_of(nv, w);
                lemma_value_of(ov, w);
                if w == kv {
                    assert(nv[i as int].key@ == w);
                } else {
                    if exists|j: int| 0 <= j < ov.len() && ov[j].key@ == w {
                        let j = choose|j: int| 0 <= j < ov.len() && ov[j].key@ == w;
                        assert(nv[j] == ov[j]);
                    } else {
                        assert forall|j: int| 0 <= j < nv.len() implies nv[j].key@ != w by {
                            if j != i {
                                assert(nv[j] == ov[j]);
                            }
                        }
                    }
                }
            }
        },
        None => {
            v.push(Entry { key: k, value: val });
            let ghost nv = v@;
            assert(pairs(nv).drop_last() =~= pairs(ov));
            assert(table_wf(nv)) by {
                assert forall|a: int, b: int| 0 <= a < b < nv.len() implies pairs(nv)[a].0 != pairs(
                    nv,
                )[b].0 by {
                    if b < ov.len() {
                        assert(pairs(ov)[a].0 == ov[a].key@);
                        assert(pairs(ov)[b].0 == ov[b].key@);
                    } else {
                        assert(nv[a] == ov[a]);
                    }
                }
            }
            assert forall|w: Seq<char>| #[trigger]
                value_of(nv, w) == if w == kv {
                    Some(val)
                } else {
                    value_of(ov, w)
                } by {
                assert(pairs(nv).last() == (kv, val));
            }
        },
    }
}

/// Removes the entry under `k`, if there is one.
pub fn remove_value<V: Copy>(v: &mut Vec<Entry<V>>, k: &String)
    requires
        table_wf(old(v)@),
    ensures
        table_wf(final(v)@),
        forall|w: Seq<char>|
            #[trigger] value_of(final(v)@, w) == if w == k@ {
                None
            } else {
                value_of(old(v)@, w)
            },
        final(v)@.len() == old(v)@.len() - if value_of(old(v)@, k@) is Some {
            1int
        } else {
            0int
        },
{
    let ghost ov = v@;
    proof {
        lemma_value_of(ov, k@);
    }
    match find_key(v, k) {
        Some(i) => {
            v.remove(i);
            let ghost nv = v@;
            assert forall|j: int| 0 <= j < nv.len() implies #[trigger] nv[j] == if j < i {
                ov[j]
            } else {
                ov[j + 1]
            } by {}
            assert(table_wf(nv)) by {
                assert forall|a: int, b: int| 0 <= a < b < nv.len() implies pairs(nv)[a].0 != pairs(
                    nv,
                )[b].0 by {
                    let a2 = if a < i { a } else { a + 1 };
                    let b2 = if b < i { b } else { b + 1 };
                    assert(pairs(ov)[a2].0 == ov[a2].key@);
                    assert(pairs(ov)[b2].0 == ov[b2].key@);
                    assert(nv[a] == ov[a2]);
                    assert(nv[b] == ov[b2]);
                }
            }
            assert forall|w: Seq<char>| #[trigger]
                value_of(nv, w) == if w == k@ {
                    None
                } else {
                    value_of(ov, w)
                } by {
                lemma_value_of(nv, w);
                lemma_value_of(ov, w);
                if w == k@ {
                    assert forall|j: int| 0 <= j < nv.len() implies nv[j].key@ != w by {
                        let j2 = if j < i { j } else { j + 1 };
                        assert(nv[j] == ov[j2]);
                        assert(pairs(ov)[j2].0 == ov[j2].key@);
                        assert(pairs(ov)[i as int].0 == ov[i as int].key@);
                    }
                } else {
                    if exists|j: int| 0 <= j < ov.len() && ov[j].key@ == w {
                        let j = choose|j: int| 0 <= j < ov.len() && ov[j].key@ == w;
                        let j2 = if j < i { j } else { j - 1 };
                        assert(nv[j2] == ov[j]);
                    } else {
                        assert forall|j: int| 0 <= j < nv.len() implies nv[j].key@ != w by {
                            let j2 = if j < i { j } else { j + 1 };
                            assert(nv[j] == ov[j2]);
                        }
                    }
                }
            }
        },
        None => {},
    }
}

} // verus!
