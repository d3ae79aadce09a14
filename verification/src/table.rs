use vstd::prelude::*;
use crate::text::str_eq;

verus! {

/// A value stored under a text key.
pub struct Entry<T> {
    pub key: String,
    pub value: T,
}

/// Position of the entry with this key, if any.
pub open spec fn key_pos<T>(s: Seq<Entry<T>>, k: Seq<char>) -> Option<int> {
    if exists|i: int| 0 <= i < s.len() && #[trigger] s[i].key@ == k {
        Some(choose|i: int| 0 <= i < s.len() && #[trigger] s[i].key@ == k)
    } else {
        None
    }
}

/// No key occurs twice.
pub open spec fn unique_keys<T>(s: Seq<Entry<T>>) -> bool {
    forall|i: int, j: int|
        0 <= i < s.len() && 0 <= j < s.len() && i != j ==> #[trigger] s[i].key@ != #[trigger] s[j].key@
}

/// The keys, in order.
pub open spec fn keys_of<T>(s: Seq<Entry<T>>) -> Seq<Seq<char>> {
    s.map_values(|e: Entry<T>| e.key@)
}

pub proof fn lemma_key_pos<T>(s: Seq<Entry<T>>, i: int)
    requires
        unique_keys(s),
        0 <= i < s.len(),
    ensures
        key_pos(s, s[i].key@) == Some(i),
{
    let k = choose|k: int| 0 <= k < s.len() && #[trigger] s[k].key@ == s[i].key@;
    assert(s[k].key@ == s[i].key@);
}

pub proof fn lemma_key_pos_absent<T>(s: Seq<Entry<T>>, k: Seq<char>)
    requires
        key_pos(s, k) is None,
    ensures
        forall|i: int| 0 <= i < s.len() ==> #[trigger] s[i].key@ != k,
{
}

pub proof fn lemma_unique_push<T>(s: Seq<Entry<T>>, e: Entry<T>)
    requires
        unique_keys(s),
        key_pos(s, e.key@) is None,
    ensures
        unique_keys(s.push(e)),
{
    let p = s.push(e);
    assert forall|a: int, b: int| 0 <= a < p.len() && 0 <= b < p.len() && a != b implies #[trigger] p[a].key@
        != #[trigger] p[b].key@ by {
        if a < s.len() && b < s.len() {
            assert(p[a] == s[a] && p[b] == s[b]);
        } else if a == s.len() {
            assert(p[b] == s[b]);
            assert(s[b].key@ != e.key@);
        } else {
            assert(p[a] == s[a]);
            assert(s[a].key@ != e.key@);
        }
    }
}

pub proof fn lemma_unique_remove<T>(s: Seq<Entry<T>>, i: int)
    requires
        unique_keys(s),
        0 <= i < s.len(),
    ensures
        unique_keys(s.remove(i)),
        forall|j: int| 0 <= j < s.remove(i).len() ==> #[trigger] s.remove(i)[j].key@ != s[i].key@,
{
    let r = s.remove(i);
    assert forall|a: int, b: int| 0 <= a < r.len() && 0 <= b < r.len() && a != b implies #[trigger] r[a].key@
        != #[trigger] r[b].key@ by {
        let a0 = if a < i { a } else { a + 1 };
        let b0 = if b < i { b } else { b + 1 };
        assert(r[a] == s[a0] && r[b] == s[b0]);
    }
    assert forall|j: int| 0 <= j < r.len() implies #[trigger] r[j].key@ != s[i].key@ by {
        let j0 = if j < i { j } else { j + 1 };
        assert(r[j] == s[j0]);
    }
}

/// Replacing an entry's value keeps the keys.
pub proof fn lemma_unique_same_keys<T>(s: Seq<Entry<T>>, r: Seq<Entry<T>>)
    requires
        unique_keys(s),
        r.len() == s.len(),
        forall|i: int| 0 <= i < s.len() ==> #[trigger] r[i].key@ == s[i].key@,
    ensures
        unique_keys(r),
{
    assert forall|a: int, b: int| 0 <= a < r.len() && 0 <= b < r.len() && a != b implies #[trigger] r[a].key@
        != #[trigger] r[b].key@ by {
        assert(r[a].key@ == s[a].key@ && r[b].key@ == s[b].key@);
    }
}

/// Keeping some entries keeps the keys distinct.
pub proof fn lemma_unique_filter<T>(s: Seq<Entry<T>>, p: spec_fn(Entry<T>) -> bool)
    requires
        unique_keys(s),
    ensures
        unique_keys(s.filter(p)),
        forall|k: Seq<char>| key_pos(s, k) is None ==> key_pos(#[trigger] s.filter(p), k) is None,
    decreases s.len(),
{
    reveal(Seq::filter);
    if s.len() > 0 {
        let d = s.drop_last();
        assert(unique_keys(d)) by {
            assert forall|a: int, b: int| 0 <= a < d.len() && 0 <= b < d.len() && a != b implies #[trigger] d[a].key@
                != #[trigger] d[b].key@ by {
                assert(d[a] == s[a] && d[b] == s[b]);
            }
        }
        lemma_unique_filter(d, p);
        let f = d.filter(p);
        assert forall|k: Seq<char>| key_pos(s, k) is None implies key_pos(#[trigger] s.filter(p), k) is None by {
            assert forall|i: int| 0 <= i < d.len() implies #[trigger] d[i].key@ != k by {
                assert(d[i] == s[i]);
            }
            assert(key_pos(d, k) is None);
            if p(s.last()) {
                assert(s.filter(p) == f.push(s.last()));
                assert forall|i: int| 0 <= i < f.push(s.last()).len() implies #[trigger] f.push(s.last())[i].key@ != k by {
                    if i < f.len() {
                        assert(f.push(s.last())[i] == f[i]);
                    } else {
                        assert(s[s.len() - 1].key@ != k);
                    }
                }
            }
        }
        if p(s.last()) {
            assert(s.filter(p) == f.push(s.last()));
            let lk = s.last().key@;
            assert forall|i: int| 0 <= i < d.len() implies #[trigger] d[i].key@ != lk by {
                assert(d[i] == s[i]);
                assert(s[i].key@ != s[s.len() - 1].key@);
            }
            assert(key_pos(d, lk) is None);
            lemma_unique_push(f, s.last());
        }
    }
}

/// Position of the entry with this key, found by a scan.
pub fn find_key<T>(v: &Vec<Entry<T>>, k: &str) -> (r: Option<usize>)
    requires
        unique_keys(v@),
    ensures
        match r {
            Some(i) => key_pos(v@, k@) == Some(i as int) && i < v@.len(),
            None => key_pos(v@, k@) is None,
        },
{
    let mut i: usize = 0;
    while i < v.len()
        invariant
            unique_keys(v@),
            i <= v@.len(),
            forall|j: int| 0 <= j < i ==> #[trigger] v@[j].key@ != k@,
        decreases v@.len() - i,
    {
        if str_eq(v[i].key.as_str(), k) {
            proof {
                lemma_key_pos(v@, i as int);
            }
            return Some(i);
        }
        i = i + 1;
    }
    None
}

/// The entry under `e`'s key gets `e`'s value; a new key is appended.
pub open spec fn upsert_spec<T>(s: Seq<Entry<T>>, e: Entry<T>) -> Seq<Entry<T>> {
    match key_pos(s, e.key@) {
        Some(i) => s.update(i, e),
        None => s.push(e),
    }
}

/// Stores `value` under `key`, replacing and returning the value stored there before.
pub fn upsert<T>(v: &mut Vec<Entry<T>>, key: String, value: T) -> (r: Option<T>)
    requires
        unique_keys(old(v)@),
    ensures
        final(v)@ == upsert_spec(old(v)@, Entry { key, value }),
        unique_keys(final(v)@),
        match key_pos(old(v)@, key@) {
            Some(i) => r == Some(old(v)@[i].value),
            None => r is None,
        },
{
    match find_key(v, key.as_str()) {
        Some(i) => {
            let old_entry = v.remove(i);
            v.insert(i, Entry { key, value });
            assert(v@ =~= old(v)@.update(i as int, Entry { key, value }));
            proof {
                lemma_unique_same_keys(old(v)@, v@);
            }
            Some(old_entry.value)
        },
        None => {
            proof {
                lemma_unique_push(v@, Entry { key, value });
            }
            v.push(Entry { key, value });
            None
        },
    }
}

/// Removes and returns the entry at `i`.
pub fn remove_at<T>(v: &mut Vec<Entry<T>>, i: usize) -> (r: Entry<T>)
    requires
        unique_keys(old(v)@),
        i < old(v)@.len(),
    ensures
        r == old(v)@[i as int],
        final(v)@ == old(v)@.remove(i as int),
        unique_keys(final(v)@),
        key_pos(final(v)@, r.key@) is None,
{
    proof {
        lemma_unique_remove(v@, i as int);
    }
    let r = v.remove(i);
    proof {
        lemma_key_pos_absent(v@, r.key@);
        assert(key_pos(v@, r.key@) is None);
    }
    r
}

} // verus!
