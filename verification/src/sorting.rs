use crate::text::{
    chars_less, lemma_chars_less_irreflexive, lemma_chars_less_total,
    lemma_chars_less_transitive, less_than,
};
use vstd::prelude::*;

verus! {

/// What a name-ordered history view sorts a row by: the artist text (empty
/// when only titles count), the title text, and the start time, newest
/// first.
pub struct SortKey {
    pub primary: Vec<char>,
    pub title: Vec<char>,
    pub started_at: i64,
}

/// The value of a [`SortKey`].
pub struct SortKeyView {
    pub primary: Seq<char>,
    pub title: Seq<char>,
    pub started_at: i64,
}

impl View for SortKey {
    type V = SortKeyView;

    open spec fn view(&self) -> SortKeyView {
        SortKeyView { primary: self.primary@, title: self.title@, started_at: self.started_at }
    }
}

/// The values of a run of keys.
pub open spec fn keys_view(keys: Seq<SortKey>) -> Seq<SortKeyView> {
    keys.map_values(|key: SortKey| key@)
}

/// Whether key `a` sorts strictly before key `b`.
pub open spec fn key_less(a: SortKeyView, b: SortKeyView) -> bool {
    ||| chars_less(a.primary, b.primary)
    ||| a.primary == b.primary && chars_less(a.title, b.title)
    ||| a.primary == b.primary && a.title == b.title && a.started_at > b.started_at
}

/// Whether the row at position `i` goes before the one at `j`: by key,
/// and, between equal keys, in the order they came (the sort is stable).
pub open spec fn ranked_before(keys: Seq<SortKeyView>, i: int, j: int) -> bool {
    key_less(keys[i], keys[j]) || (keys[i] == keys[j] && i < j)
}

/// Whether `order` lists every position `0..n` exactly once.
pub open spec fn is_permutation(order: Seq<usize>, n: int) -> bool {
    &&& order.len() == n
    &&& order.no_duplicates()
    &&& forall|k: int| 0 <= k < order.len() ==> (#[trigger] order[k]) < n
}

/// Whether `order` ranks its positions strictly increasingly.
pub open spec fn is_ranked(keys: Seq<SortKeyView>, order: Seq<usize>) -> bool {
    forall|a: int, b: int|
        0 <= a < b < order.len() ==> ranked_before(keys, #[trigger] order[a] as int, #[trigger] order[b] as int)
}

/// The ranking is a strict total order on distinct positions.
pub proof fn lemma_ranking_is_total_order(keys: Seq<SortKeyView>, i: int, j: int, k: int)
    ensures
        !ranked_before(keys, i, i),
        i != j ==> ranked_before(keys, i, j) || ranked_before(keys, j, i),
        ranked_before(keys, i, j) && ranked_before(keys, j, k) ==> ranked_before(keys, i, k),
        ranked_before(keys, i, j) ==> !ranked_before(keys, j, i),
{
    lemma_chars_less_irreflexive(keys[i].primary);
    lemma_chars_less_irreflexive(keys[i].title);
    if i != j {
        if keys[i].primary != keys[j].primary {
            lemma_chars_less_total(keys[i].primary, keys[j].primary);
        } else if keys[i].title != keys[j].title {
            lemma_chars_less_total(keys[i].title, keys[j].title);
        } else if keys[i].started_at == keys[j].started_at {
            assert(keys[i] == keys[j]);
        }
    }
    if ranked_before(keys, i, j) && ranked_before(keys, j, k) {
        if chars_less(keys[i].primary, keys[j].primary) && chars_less(
            keys[j].primary,
            keys[k].primary,
        ) {
            lemma_chars_less_transitive(keys[i].primary, keys[j].primary, keys[k].primary);
        }
        if keys[i].primary == keys[j].primary && keys[j].primary == keys[k].primary && chars_less(
            keys[i].title,
            keys[j].title,
        ) && chars_less(keys[j].title, keys[k].title) {
            lemma_chars_less_transitive(keys[i].title, keys[j].title, keys[k].title);
        }
    }
    if ranked_before(keys, i, j) && ranked_before(keys, j, i) {
        if chars_less(keys[i].primary, keys[j].primary) && chars_less(
            keys[j].primary,
            keys[i].primary,
        ) {
            lemma_chars_less_transitive(keys[i].primary, keys[j].primary, keys[i].primary);
        }
        if chars_less(keys[i].title, keys[j].title) && chars_less(keys[j].title, keys[i].title) {
            lemma_chars_less_transitive(keys[i].title, keys[j].title, keys[i].title);
        }
    }
}

/// Whether two character vectors hold the same text.
pub fn same_chars(a: &Vec<char>, b: &Vec<char>) -> (same: bool)
    ensures
        same == (a@ == b@),
{
    if a.len() != b.len() {
        return false;
    }
    let mut i: usize = 0;
    while i < a.len()
        invariant
            a@.len() == b@.len(),
            i <= a@.len(),
            forall|k: int| 0 <= k < i ==> a@[k] == b@[k],
        decreases a.len() - i,
    {
        if a[i] != b[i] {
            return false;
        }
        i = i + 1;
    }
    assert(a@ =~= b@);
    true
}

/// Whether key `a` sorts strictly before key `b`.
pub fn sorts_before(a: &SortKey, b: &SortKey) -> (less: bool)
    ensures
        less == key_less(a@, b@),
{
    if less_than(&a.primary, &b.primary) {
        return true;
    }
    if !same_chars(&a.primary, &b.primary) {
        return false;
    }
    if less_than(&a.title, &b.title) {
        return true;
    }
    if !same_chars(&a.title, &b.title) {
        return false;
    }
    a.started_at > b.started_at
}

/// The positions `0..keys.len()` in stable sorted order: by key, and
/// between equal keys in their original order. That order is unique, so
/// this is exactly what a stable sort produces.
pub fn stable_sort_order(keys: &Vec<SortKey>) -> (order: Vec<usize>)
    ensures
        is_permutation(order@, keys@.len() as int),
        is_ranked(keys_view(keys@), order@),
{
    let ghost kv = keys_view(keys@);
    let n = keys.len();
    let mut order: Vec<usize> = Vec::new();
    let mut i: usize = 0;
    while i < n
        invariant
            n == keys@.len(),
            kv == keys_view(keys@),
            kv.len() == n,
            i <= n,
            is_permutation(order@, i as int),
            is_ranked(kv, order@),
        decreases n - i,
    {
        // Binary search for the first ranked position that goes after `i`.
        let mut lo: usize = 0;
        let mut hi: usize = i;
        while lo < hi
            invariant
                n == keys@.len(),
                kv == keys_view(keys@),
                kv.len() == n,
                i < n,
                0 <= lo <= hi <= i,
                order@.len() == i,
                is_permutation(order@, i as int),
                is_ranked(kv, order@),
                forall|p: int| 0 <= p < lo ==> ranked_before(kv, #[trigger] order@[p] as int, i as int),
                forall|p: int| hi <= p < i ==> ranked_before(kv, i as int, #[trigger] order@[p] as int),
            decreases hi - lo,
        {
            let mid = lo + (hi - lo) / 2;
            let other = order[mid];
            let goes_after = sorts_before(&keys[i], &keys[other]);
            proof {
                assert(kv[i as int] == keys@[i as int]@);
                assert(kv[other as int] == keys@[other as int]@);
                assert(other < i);
                lemma_ranking_is_total_order(kv, i as int, other as int, i as int);
            }
            if goes_after {
                proof {
                    assert forall|p: int| mid <= p < i implies ranked_before(
                        kv,
                        i as int,
                        #[trigger] order@[p] as int,
                    ) by {
                        if p > mid {
                            lemma_ranking_is_total_order(
                                kv,
                                i as int,
                                order@[mid as int] as int,
                                order@[p] as int,
                            );
                        }
                    }
                }
                hi = mid;
            } else {
                proof {
                    assert(ranked_before(kv, other as int, i as int));
                    assert forall|p: int| 0 <= p < mid + 1 implies ranked_before(
                        kv,
                        #[trigger] order@[p] as int,
                        i as int,
                    ) by {
                        if p < mid {
                            lemma_ranking_is_total_order(
                                kv,
                                order@[p] as int,
                                order@[mid as int] as int,
                                i as int,
                            );
                        }
                    }
                }
                lo = mid + 1;
            }
        }
        let ghost before = order@;
        order.insert(lo, i);
        proof {
            let after = order@;
            assert(after =~= before.insert(lo as int, i));
            assert forall|k: int| 0 <= k < after.len() implies (#[trigger] after[k]) < i + 1 by {
                if k < lo {
                    assert(after[k] == before[k]);
                } else if k > lo {
                    assert(after[k] == before[k - 1]);
                }
            }
            assert forall|a: int, b: int| 0 <= a < b < after.len() implies after[a] != after[b] by {
                if a == lo as int {
                    assert(after[b] == before[b - 1]);
                } else if b == lo as int {
                    assert(after[a] == before[a]);
                } else {
                    let sa = if a < lo { a } else { a - 1 };
                    let sb = if b < lo { b } else { b - 1 };
                    assert(after[a] == before[sa]);
                    assert(after[b] == before[sb]);
                }
            }
            assert forall|a: int, b: int| 0 <= a < b < after.len() implies ranked_before(
                kv,
                #[trigger] after[a] as int,
                #[trigger] after[b] as int,
            ) by {
                if a == lo as int {
                    assert(after[b] == before[b - 1]);
                } else if b == lo as int {
                    assert(after[a] == before[a]);
                } else {
                    let sa = if a < lo { a } else { a - 1 };
                    let sb = if b < lo { b } else { b - 1 };
                    assert(after[a] == before[sa]);
                    assert(after[b] == before[sb]);
                    assert(sa < sb);
                }
            }
        }
        i = i + 1;
    }
    order
}


/// A ranked order never lists a row after one whose key it sorts strictly
/// before: if `order` ranks the rows, an earlier entry's key is never
/// strictly after a later entry's.
pub proof fn lemma_ranked_order_never_inverts(keys: Seq<SortKeyView>, order: Seq<usize>, a: int, b: int)
    requires
        is_ranked(keys, order),
        0 <= a < b < order.len(),
    ensures
        !key_less(keys[order[b] as int], keys[order[a] as int]),
{
    lemma_ranking_is_total_order(keys, order[a] as int, order[b] as int, order[a] as int);
    assert(ranked_before(keys, order[a] as int, order[b] as int));
}

} // verus!
