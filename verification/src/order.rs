//! Stable order by a text key.

use vstd::prelude::*;
use crate::text::{
    comes_before, lemma_lex_asymmetric, lemma_lex_not_before_chain, lex_before, texts,
};

verus! {

/// Whether an item with key `a` is put before one with key `b`.
pub open spec fn key_before(a: Seq<char>, b: Seq<char>, descending: bool) -> bool {
    if descending {
        lex_before(b, a)
    } else {
        lex_before(a, b)
    }
}

/// The indices `sorted` with `x` put in front of those whose key it comes
/// before, and behind all others.
pub open spec fn insert_index(
    sorted: Seq<usize>,
    keys: Seq<Seq<char>>,
    x: usize,
    descending: bool,
) -> Seq<usize>
    decreases sorted.len(),
{
    if sorted.len() == 0 {
        seq![x]
    } else if key_before(keys[x as int], keys[sorted.last() as int], descending) {
        insert_index(sorted.drop_last(), keys, x, descending).push(sorted.last())
    } else {
        sorted.push(x)
    }
}

/// The indices below `n` in the order of their keys: ascending or
/// descending in the order of strings, and in the order of the indices
/// where keys are the same.
pub open spec fn sorted_indices(keys: Seq<Seq<char>>, n: int, descending: bool) -> Seq<usize>
    decreases n,
{
    if n <= 0 {
        Seq::empty()
    } else {
        insert_index(sorted_indices(keys, n - 1, descending), keys, (n - 1) as usize, descending)
    }
}

proof fn lemma_insert_index_position(
    s: Seq<usize>,
    keys: Seq<Seq<char>>,
    x: usize,
    descending: bool,
    j: int,
)
    requires
        0 <= j <= s.len(),
        forall|k: int|
            j <= k < s.len() ==> key_before(keys[x as int], keys[s[k] as int], descending),
        j > 0 ==> !key_before(keys[x as int], keys[s[j - 1] as int], descending),
    ensures
        insert_index(s, keys, x, descending) == s.insert(j, x),
    decreases s.len(),
{
    if s.len() == 0 {
        assert(s.insert(0, x) =~= seq![x]);
    } else if key_before(keys[x as int], keys[s.last() as int], descending) {
        assert(j < s.len());
        lemma_insert_index_position(s.drop_last(), keys, x, descending, j);
        assert(s.drop_last().insert(j, x).push(s.last()) =~= s.insert(j, x));
    } else {
        assert(j == s.len());
        assert(s.insert(j, x) =~= s.push(x));
    }
}



/// No index that stands later has a key that is put before the key of an
/// earlier one.
pub open spec fn in_key_order(order: Seq<usize>, keys: Seq<Seq<char>>, descending: bool) -> bool {
    forall|i: int, j: int|
        0 <= i < j < order.len() ==> !key_before(
            keys[#[trigger] order[j] as int],
            keys[#[trigger] order[i] as int],
            descending,
        )
}

proof fn lemma_key_before_is_an_order(a: Seq<char>, b: Seq<char>, c: Seq<char>, descending: bool)
    ensures
        key_before(a, b, descending) ==> !key_before(b, a, descending),
        !key_before(a, b, descending) && !key_before(b, c, descending) ==> !key_before(
            a,
            c,
            descending,
        ),
{
    lemma_lex_asymmetric(a, b, 0);
    lemma_lex_asymmetric(b, a, 0);
    if !key_before(a, b, descending) && !key_before(b, c, descending) {
        if descending {
            lemma_lex_not_before_chain(c, b, a, 0);
        } else {
            lemma_lex_not_before_chain(a, b, c, 0);
        }
    }
}

proof fn lemma_insert_index(s: Seq<usize>, keys: Seq<Seq<char>>, x: usize, descending: bool)
    requires
        in_key_order(s, keys, descending),
    ensures
        insert_index(s, keys, x, descending).len() == s.len() + 1,
        insert_index(s, keys, x, descending).to_multiset() == s.to_multiset().insert(x),
        in_key_order(insert_index(s, keys, x, descending), keys, descending),
        forall|k: int|
            0 <= k < insert_index(s, keys, x, descending).len() ==> (#[trigger] insert_index(
                s,
                keys,
                x,
                descending,
            )[k]) == x || s.contains(insert_index(s, keys, x, descending)[k]),
    decreases s.len(),
{
    vstd::seq_lib::to_multiset_build(s, x);
    let r = insert_index(s, keys, x, descending);
    if s.len() == 0 {
        assert(r =~= s.push(x));
    } else if key_before(keys[x as int], keys[s.last() as int], descending) {
        let rest = s.drop_last();
        assert(in_key_order(rest, keys, descending)) by {
            assert forall|i: int, j: int| 0 <= i < j < rest.len() implies !key_before(
                keys[#[trigger] rest[j] as int],
                keys[#[trigger] rest[i] as int],
                descending,
            ) by {
                assert(rest[j] == s[j] && rest[i] == s[i]);
            }
        }
        lemma_insert_index(rest, keys, x, descending);
        let inner = insert_index(rest, keys, x, descending);
        assert(s == rest.push(s.last()));
        vstd::seq_lib::to_multiset_build(rest, s.last());
        vstd::seq_lib::to_multiset_build(inner, s.last());
        assert(r.to_multiset() =~= s.to_multiset().insert(x));
        assert forall|k: int| 0 <= k < r.len() implies (#[trigger] r[k]) == x || s.contains(
            r[k],
        ) by {
            if k < inner.len() {
                if inner[k] != x {
                    let j = choose|j: int| 0 <= j < rest.len() && rest[j] == inner[k];
                    assert(s[j] == inner[k]);
                }
            } else {
                assert(s[s.len() - 1] == r[k]);
            }
        }
        assert forall|i: int, j: int| 0 <= i < j < r.len() implies !key_before(
            keys[#[trigger] r[j] as int],
            keys[#[trigger] r[i] as int],
            descending,
        ) by {
            if j < inner.len() {
                assert(r[j] == inner[j] && r[i] == inner[i]);
            } else {
                assert(r[j] == s.last());
                assert(r[i] == inner[i]);
                if inner[i] == x {
                    lemma_key_before_is_an_order(
                        keys[x as int],
                        keys[s.last() as int],
                        keys[x as int],
                        descending,
                    );
                } else {
                    let k = choose|k: int| 0 <= k < rest.len() && rest[k] == inner[i];
                    assert(s[k] == inner[i]);
                    assert(!key_before(
                        keys[s[s.len() - 1] as int],
                        keys[s[k] as int],
                        descending,
                    ));
                }
            }
        }
    } else {
        assert forall|k: int| 0 <= k < r.len() implies (#[trigger] r[k]) == x || s.contains(
            r[k],
        ) by {
            if k < s.len() {
                assert(s[k] == r[k]);
            }
        }
        assert forall|i: int, j: int| 0 <= i < j < r.len() implies !key_before(
            keys[#[trigger] r[j] as int],
            keys[#[trigger] r[i] as int],
            descending,
        ) by {
            if j < s.len() {
                assert(r[j] == s[j] && r[i] == s[i]);
            } else {
                assert(r[j] == x);
                assert(r[i] == s[i]);
                if i < s.len() - 1 {
                    assert(!key_before(
                        keys[s[s.len() - 1] as int],
                        keys[s[i] as int],
                        descending,
                    ));
                    lemma_key_before_is_an_order(
                        keys[x as int],
                        keys[s.last() as int],
                        keys[s[i] as int],
                        descending,
                    );
                }
            }
        }
    }
}

/// The order by key holds each index below `n` once, and no key of a
/// later index is put before the key of an earlier one.
pub proof fn lemma_sorted_indices(keys: Seq<Seq<char>>, n: int, descending: bool)
    requires
        0 <= n <= usize::MAX,
    ensures
        sorted_indices(keys, n, descending).len() == n,
        sorted_indices(keys, n, descending).to_multiset() == Seq::new(
            n as nat,
            |i: int| i as usize,
        ).to_multiset(),
        in_key_order(sorted_indices(keys, n, descending), keys, descending),
    decreases n,
{
    let all = Seq::new(n as nat, |i: int| i as usize);
    if n == 0 {
        assert(sorted_indices(keys, n, descending) =~= all);
    } else {
        let fewer = Seq::new((n - 1) as nat, |i: int| i as usize);
        lemma_sorted_indices(keys, n - 1, descending);
        lemma_insert_index(
            sorted_indices(keys, n - 1, descending),
            keys,
            (n - 1) as usize,
            descending,
        );
        assert(all =~= fewer.push((n - 1) as usize));
        vstd::seq_lib::to_multiset_build(fewer, (n - 1) as usize);
    }
}

/// The indices of `keys` in the order of the keys.
pub fn order_by_key(keys: &Vec<Vec<char>>, descending: bool) -> (order: Vec<usize>)
    ensures
        order@ == sorted_indices(texts(keys@), keys.len() as int, descending),
        order.len() == keys.len(),
        forall|k: int| 0 <= k < order.len() ==> order[k] < keys.len(),
{
    let mut order: Vec<usize> = Vec::new();
    let mut i: usize = 0;
    while i < keys.len()
        invariant
            i <= keys.len(),
            order.len() == i,
            forall|k: int| 0 <= k < order.len() ==> order[k] < i,
            order@ == sorted_indices(texts(keys@), i as int, descending),
        decreases keys.len() - i,
    {
        let mut j: usize = order.len();
        loop
            invariant
                j <= order.len(),
                i < keys.len(),
                forall|k: int| 0 <= k < order.len() ==> order[k] < i,
                forall|k: int|
                    j <= k < order.len() ==> key_before(
                        texts(keys@)[i as int],
                        texts(keys@)[order@[k] as int],
                        descending,
                    ),
            ensures
                j > 0 ==> !key_before(
                    texts(keys@)[i as int],
                    texts(keys@)[order@[j - 1] as int],
                    descending,
                ),
            decreases j,
        {
            if j == 0 {
                break ;
            }
            let y: usize = order[j - 1];
            let before = if descending {
                comes_before(&keys[y], &keys[i])
            } else {
                comes_before(&keys[i], &keys[y])
            };
            if !before {
                break ;
            }
            j -= 1;
        }
        proof {
            lemma_insert_index_position(order@, texts(keys@), i, descending, j as int);
        }
        order.insert(j, i);
        i += 1;
    }
    order
}

} // verus!
