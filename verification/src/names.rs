//! Sorted sets of names.
//!
//! Merged references, totals and table rows are all listed by name, each name
//! once, in ascending order. This module holds that order: the sequence of
//! the distinct names of a list, and the proof that it depends on nothing
//! but which names occur.

use crate::text::{lemma_lex_irreflexive, lemma_lex_total, lemma_lex_transitive, lex_lt, str_eq, str_lt, string_views};
use vstd::prelude::*;

verus! {

/// Every element comes before each later one.
pub open spec fn strictly_sorted(keys: Seq<Seq<char>>) -> bool {
    forall|i: int, j: int| 0 <= i < j < keys.len() ==> lex_lt(#[trigger] keys[i], #[trigger] keys[j])
}

/// `keys` with `k` put in its place, or `keys` itself where it holds `k`.
pub open spec fn insert_key(keys: Seq<Seq<char>>, k: Seq<char>) -> Seq<Seq<char>>
    decreases keys.len(),
{
    if keys.len() == 0 {
        seq![k]
    } else if keys.last() == k {
        keys
    } else if lex_lt(keys.last(), k) {
        keys.push(k)
    } else {
        insert_key(keys.drop_last(), k).push(keys.last())
    }
}

/// `base` with each of `keys` put in its place.
pub open spec fn insert_all(base: Seq<Seq<char>>, keys: Seq<Seq<char>>) -> Seq<Seq<char>>
    decreases keys.len(),
{
    if keys.len() == 0 {
        base
    } else {
        insert_key(insert_all(base, keys.drop_last()), keys.last())
    }
}

/// The distinct elements of `keys` in ascending order.
pub open spec fn distinct_sorted(keys: Seq<Seq<char>>) -> Seq<Seq<char>> {
    insert_all(Seq::empty(), keys)
}

/// Inserting into a sorted sequence keeps it sorted and adds exactly `k`.
pub proof fn lemma_insert_key(keys: Seq<Seq<char>>, k: Seq<char>)
    requires
        strictly_sorted(keys),
    ensures
        strictly_sorted(insert_key(keys, k)),
        forall|x: Seq<char>| #[trigger] insert_key(keys, k).contains(x) <==> (x == k || keys.contains(x)),
        keys.contains(k) ==> insert_key(keys, k) == keys,
        !keys.contains(k) ==> insert_key(keys, k).len() == keys.len() + 1,
    decreases keys.len(),
{
    let out = insert_key(keys, k);
    if keys.len() == 0 {
        assert(out[0] == k);
        assert forall|x: Seq<char>| #[trigger] out.contains(x) <==> (x == k || keys.contains(x)) by {
            if out.contains(x) {
                let i = choose|i: int| 0 <= i < out.len() && out[i] == x;
            }
        }
    } else if keys.last() == k {
        assert(keys.contains(k)) by {
            assert(keys[keys.len() - 1] == k);
        }
    } else if lex_lt(keys.last(), k) {
        assert forall|i: int, j: int| 0 <= i < j < out.len() implies lex_lt(
            #[trigger] out[i],
            #[trigger] out[j],
        ) by {
            if j == keys.len() {
                if i < keys.len() - 1 {
                    assert(lex_lt(keys[i], keys[keys.len() - 1]));
                    lemma_lex_transitive(keys[i], keys.last(), k);
                }
            } else {
                assert(lex_lt(keys[i], keys[j]));
            }
        }
        assert forall|x: Seq<char>| #[trigger] out.contains(x) <==> (x == k || keys.contains(x)) by {
            if out.contains(x) {
                let i = choose|i: int| 0 <= i < out.len() && out[i] == x;
                if i < keys.len() {
                    assert(keys[i] == x);
                }
            }
            if keys.contains(x) {
                let i = choose|i: int| 0 <= i < keys.len() && keys[i] == x;
                assert(out[i] == x);
            }
            if x == k {
                assert(out[keys.len() as int] == x);
            }
        }
        if keys.contains(k) {
            let i = choose|i: int| 0 <= i < keys.len() && keys[i] == k;
            if i < keys.len() - 1 {
                assert(lex_lt(keys[i], keys[keys.len() - 1]));
                lemma_lex_transitive(keys[i], keys.last(), k);
            }
            lemma_lex_irreflexive(k);
        }
    } else {
        let front = keys.drop_last();
        let last = keys.last();
        assert(strictly_sorted(front)) by {
            assert forall|i: int, j: int| 0 <= i < j < front.len() implies lex_lt(
                #[trigger] front[i],
                #[trigger] front[j],
            ) by {
                assert(lex_lt(keys[i], keys[j]));
            }
        }
        lemma_insert_key(front, k);
        let inner = insert_key(front, k);
        lemma_lex_total(last, k);
        assert(lex_lt(k, last));
        assert forall|i: int, j: int| 0 <= i < j < out.len() implies lex_lt(
            #[trigger] out[i],
            #[trigger] out[j],
        ) by {
            if j == inner.len() {
                assert(inner.contains(inner[i]));
                if inner[i] != k {
                    let p = choose|p: int| 0 <= p < front.len() && front[p] == inner[i];
                    assert(lex_lt(keys[p], keys[keys.len() - 1]));
                }
            } else {
                assert(lex_lt(inner[i], inner[j]));
            }
        }
        assert forall|x: Seq<char>| #[trigger] out.contains(x) <==> (x == k || keys.contains(x)) by {
            if out.contains(x) {
                let i = choose|i: int| 0 <= i < out.len() && out[i] == x;
                if i < inner.len() {
                    assert(inner.contains(inner[i]));
                    if x != k {
                        let p = choose|p: int| 0 <= p < front.len() && front[p] == x;
                        assert(keys[p] == x);
                    }
                } else {
                    assert(keys[keys.len() - 1] == x);
                }
            }
            if keys.contains(x) {
                let i = choose|i: int| 0 <= i < keys.len() && keys[i] == x;
                if i < front.len() {
                    assert(front[i] == x);
                    assert(front.contains(x));
                    assert(inner.contains(x));
                    let q = choose|q: int| 0 <= q < inner.len() && inner[q] == x;
                    assert(out[q] == x);
                } else {
                    assert(out[inner.len() as int] == x);
                }
            }
            if x == k {
                assert(inner.contains(k));
                let q = choose|q: int| 0 <= q < inner.len() && inner[q] == k;
                assert(out[q] == x);
            }
        }
        if keys.contains(k) {
            let i = choose|i: int| 0 <= i < keys.len() && keys[i] == k;
            assert(front[i] == k);
            assert(front.contains(k));
            assert(out =~= keys);
        } else {
            assert(!front.contains(k)) by {
                if front.contains(k) {
                    let i = choose|i: int| 0 <= i < front.len() && front[i] == k;
                    assert(keys[i] == k);
                }
            }
        }
    }
}

/// Inserting all of `keys` into a sorted sequence keeps it sorted, and the
/// result holds the elements of both.
pub proof fn lemma_insert_all(base: Seq<Seq<char>>, keys: Seq<Seq<char>>)
    requires
        strictly_sorted(base),
    ensures
        strictly_sorted(insert_all(base, keys)),
        forall|x: Seq<char>| #[trigger] insert_all(base, keys).contains(x) <==> (base.contains(x) || keys.contains(x)),
    decreases keys.len(),
{
    if keys.len() > 0 {
        let front = keys.drop_last();
        lemma_insert_all(base, front);
        lemma_insert_key(insert_all(base, front), keys.last());
        assert forall|x: Seq<char>| #[trigger] insert_all(base, keys).contains(x) <==> (base.contains(x)
            || keys.contains(x)) by {
            if keys.contains(x) {
                let i = choose|i: int| 0 <= i < keys.len() && keys[i] == x;
                if i < front.len() {
                    assert(front[i] == x);
                }
            }
            if front.contains(x) {
                let i = choose|i: int| 0 <= i < front.len() && front[i] == x;
                assert(keys[i] == x);
            }
            assert(keys[keys.len() - 1] == keys.last());
        }
    }
}

/// The distinct names of a list are sorted, and they are the names that occur.
pub proof fn lemma_distinct_sorted(keys: Seq<Seq<char>>)
    ensures
        strictly_sorted(distinct_sorted(keys)),
        forall|x: Seq<char>| #[trigger] distinct_sorted(keys).contains(x) <==> keys.contains(x),
{
    lemma_insert_all(Seq::empty(), keys);
    assert forall|x: Seq<char>| #[trigger] distinct_sorted(keys).contains(x) <==> keys.contains(x) by {
        assert(!Seq::<Seq<char>>::empty().contains(x));
    }
}

/// A sorted sequence is determined by its elements.
pub proof fn lemma_sorted_unique(s: Seq<Seq<char>>, t: Seq<Seq<char>>)
    requires
        strictly_sorted(s),
        strictly_sorted(t),
        forall|x: Seq<char>| s.contains(x) <==> t.contains(x),
    ensures
        s == t,
    decreases s.len(),
{
    if s.len() == 0 {
        if t.len() > 0 {
            assert(t.contains(t[0]));
        }
        assert(s =~= t);
    } else {
        assert(s.contains(s.last())) by {
            assert(s[s.len() - 1] == s.last());
        }
        assert(t.len() > 0);
        assert(t.contains(t.last())) by {
            assert(t[t.len() - 1] == t.last());
        }
        // The last element of each is its greatest, so the two are equal.
        let i = choose|i: int| 0 <= i < t.len() && t[i] == s.last();
        let j = choose|j: int| 0 <= j < s.len() && s[j] == t.last();
        lemma_lex_total(s.last(), t.last());
        if i < t.len() - 1 {
            assert(lex_lt(t[i], t[t.len() - 1]));
        }
        if j < s.len() - 1 {
            assert(lex_lt(s[j], s[s.len() - 1]));
        }
        assert(s.last() == t.last());
        let s0 = s.drop_last();
        let t0 = t.drop_last();
        assert(strictly_sorted(s0)) by {
            assert forall|a: int, b: int| 0 <= a < b < s0.len() implies lex_lt(
                #[trigger] s0[a],
                #[trigger] s0[b],
            ) by {
                assert(lex_lt(s[a], s[b]));
            }
        }
        assert(strictly_sorted(t0)) by {
            assert forall|a: int, b: int| 0 <= a < b < t0.len() implies lex_lt(
                #[trigger] t0[a],
                #[trigger] t0[b],
            ) by {
                assert(lex_lt(t[a], t[b]));
            }
        }
        assert forall|x: Seq<char>| s0.contains(x) <==> t0.contains(x) by {
            lemma_lex_irreflexive(s.last());
            if s0.contains(x) {
                let a = choose|a: int| 0 <= a < s0.len() && s0[a] == x;
                assert(s[a] == x);
                assert(lex_lt(s[a], s[s.len() - 1]));
                assert(s.contains(x));
                let b = choose|b: int| 0 <= b < t.len() && t[b] == x;
                assert(b < t.len() - 1);
                assert(t0[b] == x);
            }
            if t0.contains(x) {
                let b = choose|b: int| 0 <= b < t0.len() && t0[b] == x;
                assert(t[b] == x);
                assert(lex_lt(t[b], t[t.len() - 1]));
                assert(t.contains(x));
                let a = choose|a: int| 0 <= a < s.len() && s[a] == x;
                assert(a < s.len() - 1);
                assert(s0[a] == x);
            }
        }
        lemma_sorted_unique(s0, t0);
        assert(s =~= s0.push(s.last()));
        assert(t =~= t0.push(t.last()));
    }
}

/// Two lists in which the same names occur have the same distinct names: the
/// order of a list, and how often a name occurs in it, do not matter.
pub proof fn lemma_distinct_sorted_same_names(a: Seq<Seq<char>>, b: Seq<Seq<char>>)
    requires
        forall|x: Seq<char>| a.contains(x) <==> b.contains(x),
    ensures
        distinct_sorted(a) == distinct_sorted(b),
{
    lemma_distinct_sorted(a);
    lemma_distinct_sorted(b);
    assert forall|x: Seq<char>| distinct_sorted(a).contains(x) <==> distinct_sorted(b).contains(x) by {
        assert(distinct_sorted(a).contains(x) <==> a.contains(x));
        assert(distinct_sorted(b).contains(x) <==> b.contains(x));
    }
    lemma_sorted_unique(distinct_sorted(a), distinct_sorted(b));
}

/// Inserting two lists of names one after the other gives the same set in
/// either order.
pub proof fn lemma_insert_all_commutes(base: Seq<Seq<char>>, a: Seq<Seq<char>>, b: Seq<Seq<char>>)
    requires
        strictly_sorted(base),
    ensures
        insert_all(insert_all(base, a), b) == insert_all(insert_all(base, b), a),
{
    lemma_insert_all(base, a);
    lemma_insert_all(base, b);
    lemma_insert_all(insert_all(base, a), b);
    lemma_insert_all(insert_all(base, b), a);
    let left = insert_all(insert_all(base, a), b);
    let right = insert_all(insert_all(base, b), a);
    assert forall|x: Seq<char>| left.contains(x) <==> right.contains(x) by {
        assert(left.contains(x) <==> (insert_all(base, a).contains(x) || b.contains(x)));
        assert(right.contains(x) <==> (insert_all(base, b).contains(x) || a.contains(x)));
        assert(insert_all(base, a).contains(x) <==> (base.contains(x) || a.contains(x)));
        assert(insert_all(base, b).contains(x) <==> (base.contains(x) || b.contains(x)));
    }
    lemma_sorted_unique(left, right);
}

/// Inserting two lists one after the other is inserting them as one.
pub proof fn lemma_insert_all_in_steps(base: Seq<Seq<char>>, a: Seq<Seq<char>>, b: Seq<Seq<char>>)
    ensures
        insert_all(insert_all(base, a), b) == insert_all(base, a + b),
    decreases b.len(),
{
    if b.len() == 0 {
        assert(a + b =~= a);
    } else {
        lemma_insert_all_in_steps(base, a, b.drop_last());
        assert((a + b).drop_last() =~= a + b.drop_last());
        assert((a + b).last() == b.last());
    }
}

/// The position at which `k` stands in `insert_key(keys, k)`.
proof fn lemma_insert_key_at(keys: Seq<Seq<char>>, k: Seq<char>, at: int)
    requires
        0 <= at <= keys.len(),
        forall|j: int| at <= j < keys.len() ==> lex_lt(k, #[trigger] keys[j]),
        at > 0 ==> !lex_lt(k, keys[at - 1]),
    ensures
        at > 0 && keys[at - 1] == k ==> insert_key(keys, k) == keys,
        !(at > 0 && keys[at - 1] == k) ==> insert_key(keys, k) == keys.insert(at, k),
    decreases keys.len() - at,
{
    if keys.len() == 0 {
        assert(keys.insert(0, k) =~= seq![k]);
    } else if at == keys.len() {
        lemma_lex_total(keys.last(), k);
        if keys.last() != k {
            assert(keys.insert(at, k) =~= keys.push(k));
        }
    } else {
        let last = keys.last();
        assert(lex_lt(k, keys[keys.len() - 1]));
        lemma_lex_total(last, k);
        let front = keys.drop_last();
        assert forall|j: int| at <= j < front.len() implies lex_lt(k, #[trigger] front[j]) by {
            assert(lex_lt(k, keys[j]));
        }
        lemma_insert_key_at(front, k, at);
        if at > 0 && keys[at - 1] == k {
            assert(front.push(last) =~= keys);
        } else {
            assert(front.insert(at, k).push(last) =~= keys.insert(at, k));
        }
    }
}

/// Puts `name` in its place in the sorted vector `set`, unless it is there.
pub fn insert_name(set: &mut Vec<String>, name: &str)
    requires
        strictly_sorted(string_views(old(set)@)),
    ensures
        string_views(final(set)@) == insert_key(string_views(old(set)@), name@),
        strictly_sorted(string_views(final(set)@)),
{
    let ghost keys = string_views(set@);
    let mut at: usize = set.len();
    while at > 0 && str_lt(name, set[at - 1].as_str())
        invariant
            at <= set.len(),
            keys == string_views(set@),
            forall|j: int| at <= j < keys.len() ==> lex_lt(name@, #[trigger] keys[j]),
        decreases at,
    {
        at -= 1;
    }
    proof {
        lemma_insert_key_at(keys, name@, at as int);
        lemma_insert_key(keys, name@);
    }
    if at > 0 && str_eq(set[at - 1].as_str(), name) {
        return ;
    }
    let owned = name.to_owned();
    set.insert(at, owned);
    proof {
        assert(string_views(set@) =~= keys.insert(at as int, name@));
    }
}

/// The position of the first element of `keys` that is `k`, if there is one.
pub open spec fn index_of_key(keys: Seq<Seq<char>>, k: Seq<char>) -> Option<int>
    decreases keys.len(),
{
    if keys.len() == 0 {
        None
    } else {
        match index_of_key(keys.drop_last(), k) {
            Some(i) => Some(i),
            None => if keys.last() == k {
                Some(keys.len() - 1)
            } else {
                None
            },
        }
    }
}

/// What `index_of_key` finds is the first position of `k`.
pub proof fn lemma_index_of_key(keys: Seq<Seq<char>>, k: Seq<char>)
    ensures
        match index_of_key(keys, k) {
            Some(i) => 0 <= i < keys.len() && keys[i] == k && forall|j: int|
                0 <= j < i ==> keys[j] != k,
            None => !keys.contains(k),
        },
    decreases keys.len(),
{
    if keys.len() > 0 {
        let front = keys.drop_last();
        lemma_index_of_key(front, k);
        match index_of_key(front, k) {
            Some(i) => {
                assert(front[i] == keys[i]);
                assert forall|j: int| 0 <= j < i implies keys[j] != k by {
                    assert(front[j] == keys[j]);
                }
            },
            None => {
                if keys.last() != k && keys.contains(k) {
                    let j = choose|j: int| 0 <= j < keys.len() && keys[j] == k;
                    assert(front[j] == k);
                }
                assert forall|j: int| 0 <= j < keys.len() - 1 implies keys[j] != k by {
                    assert(front[j] == keys[j]);
                    assert(front.contains(front[j]));
                }
            },
        }
    }
}

/// The position found among the first `n` elements is the position found
/// among all.
pub proof fn lemma_index_of_key_prefix(keys: Seq<Seq<char>>, k: Seq<char>, n: int)
    requires
        0 <= n <= keys.len(),
        index_of_key(keys.take(n), k) is Some,
    ensures
        index_of_key(keys, k) == index_of_key(keys.take(n), k),
    decreases keys.len() - n,
{
    if n < keys.len() {
        assert(keys.take(n + 1).drop_last() =~= keys.take(n));
        lemma_index_of_key_prefix(keys, k, n + 1);
    } else {
        assert(keys.take(n) =~= keys);
    }
}

} // verus!
