//! Stable ordering of texts: the order in which a list of keys is
//! visited when it is sorted, equal keys keeping their places.

use vstd::prelude::*;
use crate::text::{
    lemma_lex_lt_irreflexive, lemma_lex_lt_le, lemma_lex_lt_total, less_than, lex_le, lex_lt,
};

verus! {

/// Every entry of `order` is a position below `n`.
pub open spec fn in_range(order: Seq<int>, n: int) -> bool {
    forall|i: int| 0 <= i < order.len() ==> 0 <= #[trigger] order[i] < n
}

/// The keys at the positions that `order` lists never go down.
pub open spec fn ordered_by(keys: Seq<Seq<char>>, order: Seq<int>) -> bool {
    forall|a: int, b: int|
        0 <= a < b < order.len() ==> lex_le(keys[#[trigger] order[a]], keys[#[trigger] order[b]])
}

/// Where `order` lists two positions with the same key, the lower
/// position comes first.
pub open spec fn keeps_ties(keys: Seq<Seq<char>>, order: Seq<int>) -> bool {
    forall|a: int, b: int|
        0 <= a < b < order.len() && keys[#[trigger] order[a]] == keys[#[trigger] order[b]]
            ==> order[a] < order[b]
}

/// The keys themselves never go down.
pub open spec fn is_sorted(keys: Seq<Seq<char>>) -> bool {
    forall|i: int, j: int| 0 <= i < j < keys.len() ==> lex_le(#[trigger] keys[i], #[trigger] keys[j])
}

/// Where a new key goes into `order`: behind every position whose key
/// does not come after it.
pub open spec fn insertion_point(keys: Seq<Seq<char>>, order: Seq<int>, key: Seq<char>) -> int
    decreases order.len(),
{
    if order.len() == 0 {
        0
    } else if lex_lt(key, keys[order.last()]) {
        insertion_point(keys, order.drop_last(), key)
    } else {
        order.len() as int
    }
}

/// The positions of `keys` in sorted order of their keys, equal keys in
/// the order in which they stand.
pub open spec fn sorted_order(keys: Seq<Seq<char>>) -> Seq<int>
    decreases keys.len(),
{
    if keys.len() == 0 {
        Seq::empty()
    } else {
        let rest = sorted_order(keys.drop_last());
        rest.insert(insertion_point(keys, rest, keys.last()), keys.len() - 1)
    }
}

/// The insertion point splits `order` into the keys that do not come
/// after `key` and those that do.
pub proof fn lemma_insertion_point(keys: Seq<Seq<char>>, order: Seq<int>, key: Seq<char>)
    requires
        in_range(order, keys.len() as int),
        ordered_by(keys, order),
    ensures
        0 <= insertion_point(keys, order, key) <= order.len(),
        forall|i: int|
            0 <= i < insertion_point(keys, order, key) ==> lex_le(keys[#[trigger] order[i]], key),
        forall|i: int|
            insertion_point(keys, order, key) <= i < order.len() ==> lex_lt(
                key,
                keys[#[trigger] order[i]],
            ),
    decreases order.len(),
{
    if order.len() == 0 {
    } else if lex_lt(key, keys[order.last()]) {
        let front = order.drop_last();
        assert(in_range(front, keys.len() as int)) by {
            assert forall|i: int| 0 <= i < front.len() implies 0 <= #[trigger] front[i] < keys.len() by {
                assert(front[i] == order[i]);
            }
        }
        assert(ordered_by(keys, front)) by {
            assert forall|a: int, b: int| 0 <= a < b < front.len() implies lex_le(
                keys[#[trigger] front[a]],
                keys[#[trigger] front[b]],
            ) by {
                assert(front[a] == order[a] && front[b] == order[b]);
            }
        }
        lemma_insertion_point(keys, front, key);
        let p = insertion_point(keys, order, key);
        assert forall|i: int| 0 <= i < p implies lex_le(keys[#[trigger] order[i]], key) by {
            assert(order[i] == front[i]);
        }
        assert forall|i: int| p <= i < order.len() implies lex_lt(key, keys[#[trigger] order[i]]) by {
            if i < front.len() {
                assert(order[i] == front[i]);
            }
        }
    } else {
        let last = order.len() - 1;
        assert forall|i: int| 0 <= i < order.len() implies lex_le(keys[#[trigger] order[i]], key) by {
            if i < last {
                assert(lex_le(keys[order[i]], keys[order[last]]));
                if lex_lt(key, keys[order[i]]) {
                    lemma_lex_lt_le(key, keys[order[i]], keys[order[last]]);
                }
            }
        }
    }
}

/// What holds of the sorted order: it lists every position once, the
/// keys along it never go down, and equal keys keep their places.
pub proof fn lemma_sorted_order(keys: Seq<Seq<char>>)
    ensures
        sorted_order(keys).len() == keys.len(),
        in_range(sorted_order(keys), keys.len() as int),
        sorted_order(keys).no_duplicates(),
        ordered_by(keys, sorted_order(keys)),
        keeps_ties(keys, sorted_order(keys)),
    decreases keys.len(),
{
    if keys.len() > 0 {
        let front = keys.drop_last();
        let rest = sorted_order(front);
        let last = keys.len() - 1;
        let key = keys.last();
        lemma_sorted_order(front);
        assert(in_range(rest, keys.len() as int));
        assert(ordered_by(keys, rest)) by {
            assert forall|a: int, b: int| 0 <= a < b < rest.len() implies lex_le(
                keys[#[trigger] rest[a]],
                keys[#[trigger] rest[b]],
            ) by {
                assert(keys[rest[a]] == front[rest[a]] && keys[rest[b]] == front[rest[b]]);
            }
        }
        lemma_insertion_point(keys, rest, key);
        lemma_insertion_point_prefix(keys, front, rest, key);
        let p = insertion_point(keys, rest, key);
        let order = sorted_order(keys);
        assert(order == rest.insert(p, last));
        assert forall|i: int| 0 <= i < order.len() implies 0 <= #[trigger] order[i] < keys.len() by {
            if i < p {
                assert(order[i] == rest[i]);
            } else if i > p {
                assert(order[i] == rest[i - 1]);
            }
        }
        assert forall|a: int, b: int| 0 <= a < b < order.len() implies order[a] != order[b] by {
            let ra = if a < p { a } else { a - 1 };
            let rb = if b < p { b } else { b - 1 };
            if a != p {
                assert(order[a] == rest[ra]);
            }
            if b != p {
                assert(order[b] == rest[rb]);
            }
        }
        assert forall|a: int, b: int| 0 <= a < b < order.len() implies lex_le(
            keys[#[trigger] order[a]],
            keys[#[trigger] order[b]],
        ) by {
            let ra = if a < p { a } else { a - 1 };
            let rb = if b < p { b } else { b - 1 };
            if a != p {
                assert(order[a] == rest[ra]);
            }
            if b != p {
                assert(order[b] == rest[rb]);
            }
            if a == p {
                assert(lex_lt(key, keys[rest[rb]]));
                if lex_lt(keys[rest[rb]], key) {
                    lemma_lex_lt_total(key, keys[rest[rb]]);
                }
            } else if b == p {
                assert(lex_le(keys[rest[ra]], key));
            } else {
                assert(lex_le(keys[rest[ra]], keys[rest[rb]]));
            }
        }
        assert forall|a: int, b: int|
            0 <= a < b < order.len() && keys[#[trigger] order[a]] == keys[#[trigger] order[b]] implies order[a]
            < order[b] by {
            let ra = if a < p { a } else { a - 1 };
            let rb = if b < p { b } else { b - 1 };
            if a != p {
                assert(order[a] == rest[ra]);
            }
            if b != p {
                assert(order[b] == rest[rb]);
            }
            if a == p {
                assert(lex_lt(key, keys[rest[rb]]));
                lemma_lex_lt_irreflexive(key);
            } else if b == p {
            } else {
                assert(front[rest[ra]] == keys[rest[ra]] && front[rest[rb]] == keys[rest[rb]]);
            }
        }
    }
}

/// The insertion point looks only at the keys that `order` lists.
pub proof fn lemma_insertion_point_prefix(
    keys: Seq<Seq<char>>,
    front: Seq<Seq<char>>,
    order: Seq<int>,
    key: Seq<char>,
)
    requires
        front.len() <= keys.len(),
        in_range(order, front.len() as int),
        forall|i: int| 0 <= i < front.len() ==> front[i] == keys[i],
    ensures
        insertion_point(keys, order, key) == insertion_point(front, order, key),
    decreases order.len(),
{
    if order.len() > 0 {
        assert(0 <= order[order.len() - 1] < front.len());
        let shorter = order.drop_last();
        assert(in_range(shorter, front.len() as int)) by {
            assert forall|i: int| 0 <= i < shorter.len() implies 0 <= #[trigger] shorter[i] < front.len() by {
                assert(shorter[i] == order[i]);
            }
        }
        lemma_insertion_point_prefix(keys, front, shorter, key);
    }
}

/// Keys that already stand in order are visited as they stand.
pub proof fn lemma_sorted_order_of_sorted(keys: Seq<Seq<char>>)
    requires
        is_sorted(keys),
    ensures
        sorted_order(keys) == Seq::new(keys.len(), |i: int| i),
    decreases keys.len(),
{
    if keys.len() > 0 {
        let front = keys.drop_last();
        assert(is_sorted(front)) by {
            assert forall|i: int, j: int| 0 <= i < j < front.len() implies lex_le(
                #[trigger] front[i],
                #[trigger] front[j],
            ) by {
                assert(front[i] == keys[i] && front[j] == keys[j]);
            }
        }
        lemma_sorted_order_of_sorted(front);
        let rest = sorted_order(front);
        if rest.len() > 0 {
            assert(rest.last() == front.len() - 1);
            assert(lex_le(keys[front.len() - 1], keys[keys.len() - 1]));
        }
        assert(insertion_point(keys, rest, keys.last()) == rest.len());
        assert(sorted_order(keys) =~= Seq::new(keys.len(), |i: int| i));
    }
}

/// The texts that `keys` hold.
pub open spec fn key_texts(keys: Seq<Vec<char>>) -> Seq<Seq<char>> {
    keys.map_values(|key: Vec<char>| key@)
}

/// The positions that `order` lists.
pub open spec fn positions(order: Seq<usize>) -> Seq<int> {
    order.map_values(|i: usize| i as int)
}

/// The positions of `keys` in sorted order of their keys, equal keys in
/// the order in which they stand.
pub fn sort_order(keys: &Vec<Vec<char>>) -> (order: Vec<usize>)
    ensures
        positions(order@) == sorted_order(key_texts(keys@)),
{
    let ghost all = key_texts(keys@);
    let mut order: Vec<usize> = Vec::new();
    let mut k: usize = 0;
    assert(positions(order@) == sorted_order(all.take(0)));
    while k < keys.len()
        invariant
            k <= keys@.len(),
            all == key_texts(keys@),
            positions(order@) == sorted_order(all.take(k as int)),
        decreases keys@.len() - k,
    {
        let ghost front = all.take(k as int);
        let ghost upto = all.take(k + 1);
        let ghost rest = positions(order@);
        proof {
            lemma_sorted_order(front);
            assert(upto.drop_last() == front);
            assert(upto.last() == keys@[k as int]@);
        }
        let mut p: usize = order.len();
        assert(rest.take(p as int) == rest);
        while p > 0 && less_than(&keys[k], &keys[order[p - 1]])
            invariant
                p <= order@.len(),
                k < keys@.len(),
                all == key_texts(keys@),
                upto == all.take(k + 1),
                rest == positions(order@),
                in_range(rest, k as int),
                insertion_point(upto, rest, upto.last()) == insertion_point(
                    upto,
                    rest.take(p as int),
                    upto.last(),
                ),
            decreases p,
        {
            proof {
                let shown = rest.take(p as int);
                assert(shown.last() == rest[p - 1]);
                assert(0 <= rest[p - 1] < k);
                assert(upto[rest[p - 1]] == keys@[order@[p - 1] as int]@);
                assert(shown.drop_last() == rest.take(p - 1));
            }
            p = p - 1;
        }
        proof {
            let shown = rest.take(p as int);
            if p > 0 {
                assert(shown.last() == rest[p - 1]);
                assert(0 <= rest[p - 1] < k);
                assert(upto[rest[p - 1]] == keys@[order@[p - 1] as int]@);
            }
            assert(insertion_point(upto, rest, upto.last()) == p);
        }
        order.insert(p, k);
        assert(positions(order@) == rest.insert(p as int, k as int));
        k = k + 1;
    }
    assert(all.take(k as int) == all);
    order
}

} // verus!
