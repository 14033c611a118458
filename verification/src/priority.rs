//! Stable ordering of items by descending priority.
//!
//! Used by the middleware chain: higher priorities run first, and items of
//! equal priority keep the order in which they were added.

use vstd::prelude::*;

verus! {

/// `origin` lists each index below `n` exactly once.
pub open spec fn is_index_permutation(origin: Seq<int>, n: int) -> bool {
    &&& origin.len() == n
    &&& forall|k: int| 0 <= k < n ==> 0 <= #[trigger] origin[k] < n
    &&& forall|a: int, b: int| 0 <= a < b < n ==> origin[a] != origin[b]
}

/// `new` holds the elements of `old`, each exactly once, in some order.
pub open spec fn is_rearrangement<A>(new: Seq<A>, old: Seq<A>) -> bool {
    &&& new.len() == old.len()
    &&& exists|origin: Seq<int>|
        is_index_permutation(origin, old.len() as int) && forall|k: int|
            0 <= k < origin.len() ==> new[k] == old[#[trigger] origin[k]]
}

/// `keys` is in descending order, and equal keys keep the order of their
/// starting positions `origin`.
pub open spec fn descending_stable(keys: Seq<i32>, origin: Seq<int>) -> bool {
    forall|a: int, b: int|
        0 <= a < b < keys.len() ==> keys[a] > keys[b] || (keys[a] == keys[b] && origin[a]
            < origin[b])
}

/// The sequence `s` with its element at `i` moved back to position `j`
/// (`j <= i`), the elements in between shifted one place forward.
pub open spec fn move_back<A>(s: Seq<A>, i: int, j: int) -> Seq<A> {
    Seq::new(
        s.len(),
        |k: int|
            if k < j {
                s[k]
            } else if k == j {
                s[i]
            } else if k <= i {
                s[k - 1]
            } else {
                s[k]
            },
    )
}

proof fn lemma_remove_insert<A>(s: Seq<A>, i: int, j: int)
    requires
        0 <= j <= i < s.len(),
    ensures
        s.remove(i).insert(j, s[i]) == move_back(s, i, j),
{
    s.remove_ensures(i);
    s.remove(i).insert_ensures(j, s[i]);
    assert(s.remove(i).insert(j, s[i]) =~= move_back(s, i, j));
}

/// Sorts `items` in place by the matching `keys`, highest key first; items
/// with equal keys keep their relative order. Returns, for each final
/// position, the position the item came from.
pub fn sort_by_priority<T>(items: &mut Vec<T>, keys: &mut Vec<i32>) -> (origin: Ghost<Seq<int>>)
    requires
        old(items).len() == old(keys).len(),
    ensures
        final(items).len() == old(items).len(),
        final(keys).len() == old(keys).len(),
        is_index_permutation(origin@, old(items).len() as int),
        forall|k: int|
            0 <= k < old(items).len() ==> final(items)@[k] == old(items)@[#[trigger] origin@[k]]
                && final(keys)@[k] == old(keys)@[origin@[k]],
        descending_stable(final(keys)@, origin@),
{
    let n = items.len();
    let ghost items0 = items@;
    let ghost keys0 = keys@;
    let ghost mut origin: Seq<int> = Seq::new(n as nat, |k: int| k);
    let mut i: usize = 0;
    while i < n
        invariant
            items.len() == n,
            keys.len() == n,
            items0.len() == n,
            keys0.len() == n,
            i <= n,
            is_index_permutation(origin, n as int),
            forall|k: int|
                0 <= k < n ==> items@[k] == items0[#[trigger] origin[k]] && keys@[k]
                    == keys0[origin[k]],
            forall|k: int| i <= k < n ==> #[trigger] origin[k] == k,
            forall|k: int| 0 <= k < i ==> #[trigger] origin[k] < i,
            descending_stable(keys@.take(i as int), origin.take(i as int)),
        decreases n - i,
    {
        let key = keys[i];
        let mut j: usize = 0;
        while j < i && keys[j] >= key
            invariant
                j <= i,
                i < n,
                keys.len() == n,
                forall|a: int| 0 <= a < j ==> #[trigger] keys@[a] >= key,
            decreases i - j,
        {
            j = j + 1;
        }
        let ghost keys_before = keys@;
        let ghost items_before = items@;
        let ghost origin_before = origin;
        proof {
            // Every key from position j up to i is below `key`.
            assert forall|a: int| j <= a < i implies #[trigger] keys_before[a] < key by {
                assert(keys_before.take(i as int)[j as int] == keys_before[j as int]);
                assert(keys_before.take(i as int)[a] == keys_before[a]);
                if a > j {
                    assert(keys_before[j as int] >= keys_before[a]);
                }
            }
            lemma_remove_insert(items_before, i as int, j as int);
            lemma_remove_insert(keys_before, i as int, j as int);
        }
        let item = items.remove(i);
        items.insert(j, item);
        let k = keys.remove(i);
        keys.insert(j, k);
        proof {
            origin = move_back(origin_before, i as int, j as int);
            assert(items@ == move_back(items_before, i as int, j as int));
            assert(keys@ == move_back(keys_before, i as int, j as int));
            assert forall|a: int, b: int| 0 <= a < b < n implies origin[a] != origin[b] by {
                let oa = if a < j { a } else if a == j { i as int } else if a <= i { a - 1 } else { a };
                let ob = if b < j { b } else if b == j { i as int } else if b <= i { b - 1 } else { b };
                assert(origin[a] == origin_before[oa]);
                assert(origin[b] == origin_before[ob]);
                assert(oa != ob);
            }
            assert forall|k: int| 0 <= k < n implies 0 <= #[trigger] origin[k] < n by {
                let ok = if k < j { k } else if k == j { i as int } else if k <= i { k - 1 } else { k };
                assert(origin[k] == origin_before[ok]);
            }
            assert forall|k: int|
                0 <= k < n implies items@[k] == items0[#[trigger] origin[k]] && keys@[k]
                    == keys0[origin[k]] by {
                let ok = if k < j { k } else if k == j { i as int } else if k <= i { k - 1 } else { k };
                assert(origin[k] == origin_before[ok]);
            }
            assert forall|k: int| 0 <= k < i + 1 implies #[trigger] origin[k] < i + 1 by {
                let ok = if k < j { k } else if k == j { i as int } else { k - 1 };
                assert(origin[k] == origin_before[ok]);
            }
            let kt = keys@.take(i + 1);
            let ot = origin.take(i + 1);
            assert forall|a: int, b: int|
                0 <= a < b < kt.len() implies kt[a] > kt[b] || (kt[a] == kt[b] && ot[a]
                < ot[b]) by {
                let oa = if a < j { a } else if a == j { i as int } else { a - 1 };
                let ob = if b < j { b } else if b == j { i as int } else { b - 1 };
                assert(kt[a] == keys_before[oa] && ot[a] == origin_before[oa]);
                assert(kt[b] == keys_before[ob] && ot[b] == origin_before[ob]);
                if a == j {
                    assert(keys_before[ob] < key);
                } else if b == j {
                    assert(keys_before[oa] >= key);
                    assert(origin_before[oa] < i);
                } else {
                    assert(keys_before.take(i as int)[oa] == keys_before[oa]);
                    assert(keys_before.take(i as int)[ob] == keys_before[ob]);
                    assert(origin_before.take(i as int)[oa] == origin_before[oa]);
                    assert(origin_before.take(i as int)[ob] == origin_before[ob]);
                }
            }
        }
        i = i + 1;
    }
    proof {
        assert(keys@.take(n as int) =~= keys@);
        assert(origin.take(n as int) =~= origin);
    }
    Ghost(origin)
}

/// After a push, the old elements keep their places and the new one is
/// last.
pub proof fn lemma_push_index<T>(s: Seq<T>, x: T)
    ensures
        s.push(x)[s.len() as int] == x,
        forall|i: int| 0 <= i < s.len() ==> #[trigger] s.push(x)[i] == s[i],
{
}

/// Appends `x` to `v`.
pub fn push_item<T>(v: &mut Vec<T>, x: T)
    ensures
        final(v)@ == old(v)@.push(x),
        final(v)@.len() == old(v)@.len() + 1,
        final(v)@.take(old(v)@.len() as int) == old(v)@,
{
    v.push(x);
    assert(v@.take(old(v)@.len() as int) =~= old(v)@);
}

} // verus!
