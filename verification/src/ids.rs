use vstd::prelude::*;

verus! {

/// Index of the first element of `s` that satisfies `p`, or -1 when there is
/// none.
pub open spec fn first_index<T>(s: Seq<T>, p: spec_fn(T) -> bool) -> int
    decreases s.len(),
{
    if s.len() == 0 {
        -1
    } else if p(s[0]) {
        0
    } else {
        let r = first_index(s.drop_first(), p);
        if r < 0 {
            -1
        } else {
            r + 1
        }
    }
}

/// The largest key in `s`, 0 for an empty sequence.
pub open spec fn max_key<T>(s: Seq<T>, key: spec_fn(T) -> u32) -> nat
    decreases s.len(),
{
    if s.len() == 0 {
        0
    } else {
        let m = max_key(s.drop_last(), key);
        if key(s.last()) > m {
            key(s.last()) as nat
        } else {
            m
        }
    }
}

/// `first_index` points at the first element that satisfies `p`, and is -1
/// exactly when none does.
pub proof fn lemma_first_index<T>(s: Seq<T>, p: spec_fn(T) -> bool)
    ensures
        -1 <= first_index(s, p) < s.len(),
        first_index(s, p) == -1 <==> (forall|j: int| 0 <= j < s.len() ==> !p(s[j])),
        first_index(s, p) >= 0 ==> p(s[first_index(s, p)]),
        forall|j: int| 0 <= j < first_index(s, p) ==> !p(s[j]),
    decreases s.len(),
{
    if s.len() > 0 && !p(s[0]) {
        lemma_first_index(s.drop_first(), p);
        assert forall|j: int| 0 < j < s.len() implies s[j] == s.drop_first()[j - 1] by {}
        if first_index(s.drop_first(), p) == -1 {
            assert forall|j: int| 0 <= j < s.len() implies !p(s[j]) by {
                if j > 0 {
                    assert(s[j] == s.drop_first()[j - 1]);
                }
            }
        }
    }
}

/// An index that satisfies `p` while no earlier one does is `first_index`.
pub proof fn lemma_first_index_at<T>(s: Seq<T>, p: spec_fn(T) -> bool, i: int)
    requires
        0 <= i < s.len(),
        p(s[i]),
        forall|j: int| 0 <= j < i ==> !p(s[j]),
    ensures
        first_index(s, p) == i,
    decreases i,
{
    if i > 0 {
        assert(s.drop_first()[i - 1] == s[i]);
        assert forall|j: int| 0 <= j < i - 1 implies !p(s.drop_first()[j]) by {
            assert(s.drop_first()[j] == s[j + 1]);
        }
        lemma_first_index_at(s.drop_first(), p, i - 1);
    }
}

/// The largest key after pushing `x`.
pub proof fn lemma_max_key_push<T>(s: Seq<T>, key: spec_fn(T) -> u32, x: T)
    ensures
        max_key(s.push(x), key) == if key(x) > max_key(s, key) {
            key(x) as nat
        } else {
            max_key(s, key)
        },
{
    assert(s.push(x).drop_last() == s);
}

/// Every key is at most the largest one.
pub proof fn lemma_max_key_bounds<T>(s: Seq<T>, key: spec_fn(T) -> u32)
    ensures
        forall|i: int| 0 <= i < s.len() ==> key(#[trigger] s[i]) <= max_key(s, key),
    decreases s.len(),
{
    if s.len() > 0 {
        lemma_max_key_bounds(s.drop_last(), key);
        assert forall|i: int| 0 <= i < s.len() implies key(#[trigger] s[i]) <= max_key(s, key) by {
            if i < s.len() - 1 {
                assert(s.drop_last()[i] == s[i]);
            }
        }
    }
}

/// No two elements of `s` share a key.
pub open spec fn unique_keys<T>(s: Seq<T>, key: spec_fn(T) -> u32) -> bool {
    forall|i: int, j: int| 0 <= i < s.len() && 0 <= j < s.len() && i != j ==> key(s[i]) != key(s[j])
}

/// `k` is the key of no element of `s`.
pub open spec fn fresh_key<T>(s: Seq<T>, key: spec_fn(T) -> u32, k: u32) -> bool {
    forall|i: int| 0 <= i < s.len() ==> key(#[trigger] s[i]) != k
}

/// Pushing an element with a fresh key keeps keys unique.
pub proof fn lemma_unique_push<T>(s: Seq<T>, key: spec_fn(T) -> u32, x: T)
    requires
        unique_keys(s, key),
        fresh_key(s, key, key(x)),
    ensures
        unique_keys(s.push(x), key),
{
    assert forall|i: int, j: int|
        0 <= i < s.push(x).len() && 0 <= j < s.push(x).len() && i != j implies key(s.push(x)[i])
        != key(s.push(x)[j]) by {
        if i < s.len() && j < s.len() {
            assert(s.push(x)[i] == s[i]);
            assert(s.push(x)[j] == s[j]);
        } else if i < s.len() {
            assert(s.push(x)[i] == s[i]);
        } else if j < s.len() {
            assert(s.push(x)[j] == s[j]);
        }
    }
}

/// Replacing an element by one with the same key keeps keys unique.
pub proof fn lemma_unique_update<T>(s: Seq<T>, key: spec_fn(T) -> u32, i: int, x: T)
    requires
        unique_keys(s, key),
        0 <= i < s.len(),
        key(x) == key(s[i]),
    ensures
        unique_keys(s.update(i, x), key),
{
    assert forall|a: int, b: int|
        0 <= a < s.len() && 0 <= b < s.len() && a != b implies key(s.update(i, x)[a]) != key(
        s.update(i, x)[b],
    ) by {
        assert(key(s.update(i, x)[a]) == key(s[a]));
        assert(key(s.update(i, x)[b]) == key(s[b]));
    }
}

/// Removing an element keeps keys unique.
pub proof fn lemma_unique_remove<T>(s: Seq<T>, key: spec_fn(T) -> u32, i: int)
    requires
        unique_keys(s, key),
        0 <= i < s.len(),
    ensures
        unique_keys(s.remove(i), key),
{
    let r = s.remove(i);
    assert forall|a: int, b: int|
        0 <= a < r.len() && 0 <= b < r.len() && a != b implies key(r[a]) != key(r[b]) by {
        let a2 = if a < i { a } else { a + 1 };
        let b2 = if b < i { b } else { b + 1 };
        assert(r[a] == s[a2]);
        assert(r[b] == s[b2]);
    }
}

/// Filtering keeps keys unique.
pub proof fn lemma_unique_filter<T>(s: Seq<T>, key: spec_fn(T) -> u32, p: spec_fn(T) -> bool)
    requires
        unique_keys(s, key),
    ensures
        unique_keys(s.filter(p), key),
    decreases s.len(),
{
    reveal_with_fuel(Seq::<_>::filter, 1);
    if s.len() > 0 {
        let d = s.drop_last();
        assert(unique_keys(d, key)) by {
            assert forall|i: int, j: int|
                0 <= i < d.len() && 0 <= j < d.len() && i != j implies key(d[i]) != key(d[j]) by {
                assert(d[i] == s[i]);
                assert(d[j] == s[j]);
            }
        }
        lemma_unique_filter(d, key, p);
        if p(s.last()) {
            let f = d.filter(p);
            assert forall|i: int| 0 <= i < f.len() implies key(#[trigger] f[i]) != key(s.last()) by {
                assert(f.contains(f[i]));
                d.lemma_filter_contains_rev(p, f[i]);
                let j = choose|j: int| 0 <= j < d.len() && d[j] == f[i];
                assert(d[j] == s[j]);
            }
            lemma_unique_push(f, key, s.last());
        }
    }
}

/// A key that no element has, or one larger than all keys, is fresh.
pub proof fn lemma_fresh_above_max<T>(s: Seq<T>, key: spec_fn(T) -> u32, k: u32)
    requires
        k > max_key(s, key),
    ensures
        fresh_key(s, key, k),
{
    lemma_max_key_bounds(s, key);
}

/// Replacing an element by one that `p` treats alike does not move the first
/// index.
pub proof fn lemma_first_index_update<T>(s: Seq<T>, p: spec_fn(T) -> bool, i: int, x: T)
    requires
        0 <= i < s.len(),
        p(x) == p(s[i]),
    ensures
        first_index(s.update(i, x), p) == first_index(s, p),
{
    let u = s.update(i, x);
    lemma_first_index(s, p);
    lemma_first_index(u, p);
    let a = first_index(s, p);
    let b = first_index(u, p);
    if a >= 0 {
        assert(p(u[a]));
        lemma_first_index_at(u, p, a);
    } else if b >= 0 {
        assert(p(s[b]));
    }
}

} // verus!
