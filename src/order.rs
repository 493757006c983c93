//! A stable sort by integer keys, largest key first.

use vstd::prelude::*;

verus! {

/// `perm` lists the positions `0..keys.len()`, each once, by descending key;
/// positions with equal keys keep their order.
pub open spec fn stable_desc_order(keys: Seq<i128>, perm: Seq<int>) -> bool {
    &&& perm.len() == keys.len()
    &&& forall|i: int| 0 <= i < perm.len() ==> 0 <= #[trigger] perm[i] < keys.len()
    &&& perm.no_duplicates()
    &&& forall|i: int, j: int|
        0 <= i < j < perm.len() ==> keys[#[trigger] perm[i]] > keys[#[trigger] perm[j]] || (keys[perm[i]]
            == keys[perm[j]] && perm[i] < perm[j])
}

/// `out` holds the items of `items` in the order `perm` gives.
pub open spec fn permuted<T>(items: Seq<T>, perm: Seq<int>, out: Seq<T>) -> bool {
    &&& out.len() == perm.len()
    &&& forall|i: int| 0 <= i < out.len() ==> out[i] == items[#[trigger] perm[i]]
}

/// Sorts `items` by `keys` (the key of `items[i]` is `keys[i]`), largest
/// key first; items with equal keys keep their order.
pub fn stable_sort_desc<T>(items: Vec<T>, keys: Vec<i128>) -> (r: Vec<T>)
    requires
        items@.len() == keys@.len(),
    ensures
        exists|perm: Seq<int>| stable_desc_order(keys@, perm) && permuted(items@, perm, r@),
{
    let ghost all_items = items@;
    let n = items.len();
    let mut rest = items;
    let mut out: Vec<T> = Vec::new();
    let mut out_keys: Vec<i128> = Vec::new();
    let ghost mut perm: Seq<int> = Seq::empty();
    let mut i: usize = 0;
    while i < n
        invariant
            n == all_items.len() == keys@.len(),
            i <= n,
            rest@ == all_items.subrange(i as int, n as int),
            perm.len() == i,
            out@.len() == i,
            out_keys@.len() == i,
            forall|x: int| 0 <= x < i ==> 0 <= #[trigger] perm[x] < i,
            perm.no_duplicates(),
            forall|x: int, y: int|
                0 <= x < y < i ==> keys@[#[trigger] perm[x]] > keys@[#[trigger] perm[y]] || (
                keys@[perm[x]] == keys@[perm[y]] && perm[x] < perm[y]),
            forall|x: int| 0 <= x < i ==> out@[x] == all_items[#[trigger] perm[x]],
            forall|x: int| 0 <= x < i ==> out_keys@[x] == keys@[#[trigger] perm[x]],
        decreases n - i,
    {
        let k = keys[i];
        let mut pos: usize = 0;
        while pos < out_keys.len() && out_keys[pos] >= k
            invariant
                pos <= out_keys@.len(),
                forall|x: int| 0 <= x < pos ==> out_keys@[x] >= k,
            decreases out_keys@.len() - pos,
        {
            pos = pos + 1;
        }
        let item = rest.remove(0);
        assert(item == all_items[i as int]);
        assert(rest@ =~= all_items.subrange(i + 1, n as int));
        let ghost old_perm = perm;
        let ghost old_out = out@;
        let ghost old_keys = out_keys@;
        out.insert(pos, item);
        out_keys.insert(pos, k);
        proof {
            perm = old_perm.insert(pos as int, i as int);
            assert forall|x: int| 0 <= x < i + 1 implies 0 <= #[trigger] perm[x] < i + 1 by {
                if x < pos {
                    assert(perm[x] == old_perm[x]);
                } else if x > pos {
                    assert(perm[x] == old_perm[x - 1]);
                }
            }
            assert forall|x: int, y: int| 0 <= x < y < i + 1 implies perm[x] != perm[y] by {
                if x < pos && y < pos {
                    assert(perm[x] == old_perm[x] && perm[y] == old_perm[y]);
                } else if x < pos && y == pos {
                    assert(perm[x] == old_perm[x]);
                } else if x < pos && y > pos {
                    assert(perm[x] == old_perm[x] && perm[y] == old_perm[y - 1]);
                } else if x == pos {
                    assert(perm[y] == old_perm[y - 1]);
                } else {
                    assert(perm[x] == old_perm[x - 1] && perm[y] == old_perm[y - 1]);
                }
            }
            assert forall|x: int| 0 <= x < i + 1 implies out@[x] == all_items[#[trigger] perm[x]]
                && out_keys@[x] == keys@[perm[x]] by {
                if x < pos {
                    assert(perm[x] == old_perm[x]);
                } else if x > pos {
                    assert(perm[x] == old_perm[x - 1]);
                }
            }
            assert forall|x: int, y: int| 0 <= x < y < i + 1 implies keys@[#[trigger] perm[x]]
                > keys@[#[trigger] perm[y]] || (keys@[perm[x]] == keys@[perm[y]] && perm[x]
                < perm[y]) by {
                if x < pos && y < pos {
                    assert(perm[x] == old_perm[x] && perm[y] == old_perm[y]);
                } else if x < pos && y == pos {
                    assert(perm[x] == old_perm[x]);
                    assert(old_keys[x] >= k);
                } else if x < pos && y > pos {
                    assert(perm[x] == old_perm[x] && perm[y] == old_perm[y - 1]);
                } else if x == pos {
                    assert(perm[y] == old_perm[y - 1]);
                    assert(old_keys[pos as int] < k);
                    if y - 1 > pos {
                        assert(keys@[old_perm[pos as int]] > keys@[old_perm[y - 1]] || keys@[old_perm[pos as int]] == keys@[old_perm[y - 1]]);
                    }
                } else {
                    assert(perm[x] == old_perm[x - 1] && perm[y] == old_perm[y - 1]);
                }
            }
        }
        i = i + 1;
    }
    assert(stable_desc_order(keys@, perm));
    assert(permuted(all_items, perm, out@));
    out
}

} // verus!
