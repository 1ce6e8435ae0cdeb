//! Stable sorting: what a stable sort of a list is, and a merge sort that computes it.
use crate::text::at_or_before;
use vstd::prelude::*;

verus! {

/// Position `x` of `s` goes before position `y` in a stable ascending order: its element is
/// smaller, or as great and further to the front.
pub open spec fn precedes<T>(s: Seq<T>, le: spec_fn(T, T) -> bool, x: int, y: int) -> bool {
    le(s[x], s[y]) && (le(s[y], s[x]) ==> x < y)
}

/// `order` lists the positions `lo..hi` of `s`, each once, in stable ascending order.
pub open spec fn orders_range<T>(
    s: Seq<T>,
    le: spec_fn(T, T) -> bool,
    order: Seq<int>,
    lo: int,
    hi: int,
) -> bool {
    &&& order.len() == hi - lo
    &&& forall|i: int| 0 <= i < order.len() ==> lo <= #[trigger] order[i] < hi
    &&& forall|x: int| lo <= x < hi ==> #[trigger] order.contains(x)
    &&& forall|i: int, j: int|
        0 <= i < j < order.len() ==> precedes(s, le, #[trigger] order[i], #[trigger] order[j])
}

/// `order` lists every position of `s` once, in stable ascending order.
pub open spec fn is_stable_order<T>(
    s: Seq<T>,
    le: spec_fn(T, T) -> bool,
    order: Seq<int>,
) -> bool {
    orders_range(s, le, order, 0, s.len() as int)
}

/// The elements of `s` in ascending order, those of equal rank as they stood.
pub open spec fn stable_sort<T>(s: Seq<T>, le: spec_fn(T, T) -> bool) -> Seq<T> {
    let order = choose|order: Seq<int>| is_stable_order(s, le, order);
    order.map_values(|x: int| s[x])
}

/// Positions as mathematical integers.
pub open spec fn ints(order: Seq<usize>) -> Seq<int> {
    order.map_values(|x: usize| x as int)
}

/// There is no more than one stable order of a list.
pub proof fn stable_order_is_unique<T>(
    s: Seq<T>,
    le: spec_fn(T, T) -> bool,
    first: Seq<int>,
    second: Seq<int>,
)
    requires
        is_stable_order(s, le, first),
        is_stable_order(s, le, second),
    ensures
        first == second,
{
    agree_up_to(s, le, first, second, s.len() as int);
    assert(first =~= second);
}

proof fn agree_up_to<T>(
    s: Seq<T>,
    le: spec_fn(T, T) -> bool,
    first: Seq<int>,
    second: Seq<int>,
    n: int,
)
    requires
        is_stable_order(s, le, first),
        is_stable_order(s, le, second),
        0 <= n <= s.len(),
    ensures
        forall|i: int| 0 <= i < n ==> first[i] == second[i],
    decreases n,
{
    if n > 0 {
        agree_up_to(s, le, first, second, n - 1);
        let k = n - 1;
        if first[k] != second[k] {
            assert(second.contains(first[k]));
            assert(first.contains(second[k]));
            let p = second.index_of(first[k]);
            let q = first.index_of(second[k]);
            if p < k {
                assert(precedes(s, le, first[p], first[k]));
                assert(first[p] == second[p]);
            }
            if q < k {
                assert(precedes(s, le, second[q], second[k]));
                assert(first[q] == second[q]);
            }
            assert(precedes(s, le, second[k], second[p]));
            assert(precedes(s, le, first[k], first[q]));
            assert(false);
        }
    }
}

/// An order of positions depends on how the elements compare and on nothing else.
pub proof fn order_of_same_ranks<S, T>(
    s: Seq<S>,
    le_s: spec_fn(S, S) -> bool,
    t: Seq<T>,
    le_t: spec_fn(T, T) -> bool,
    order: Seq<int>,
)
    requires
        s.len() == t.len(),
        forall|x: int, y: int|
            0 <= x < s.len() && 0 <= y < s.len() ==> le_s(s[x], s[y]) == le_t(t[x], t[y]),
        is_stable_order(s, le_s, order),
    ensures
        is_stable_order(t, le_t, order),
{
    assert forall|i: int, j: int| 0 <= i < j < order.len() implies precedes(
        t,
        le_t,
        #[trigger] order[i],
        #[trigger] order[j],
    ) by {
        assert(precedes(s, le_s, order[i], order[j]));
    }
}

/// The arrangement by a stable order is the stable sort.
pub proof fn arranged_is_sorted<T>(s: Seq<T>, le: spec_fn(T, T) -> bool, order: Seq<int>)
    requires
        is_stable_order(s, le, order),
    ensures
        order.map_values(|x: int| s[x]) == stable_sort(s, le),
{
    let chosen = choose|order: Seq<int>| is_stable_order(s, le, order);
    stable_order_is_unique(s, le, order, chosen);
}

/// A list in which every element is at or before the later ones is its own stable sort.
pub proof fn sorted_list_is_unchanged<T>(s: Seq<T>, le: spec_fn(T, T) -> bool)
    requires
        forall|i: int, j: int| 0 <= i < j < s.len() ==> le(s[i], s[j]),
    ensures
        stable_sort(s, le) == s,
{
    let order = Seq::new(s.len(), |i: int| i);
    assert forall|x: int| 0 <= x < s.len() implies #[trigger] order.contains(x) by {
        assert(order[x] == x);
    }
    assert(is_stable_order(s, le, order));
    arranged_is_sorted(s, le, order);
    assert(order.map_values(|x: int| s[x]) =~= s);
}

/// Values that can be put in ascending order.
pub trait Ranked: Sized {
    /// The value stands before `other` or has the same rank.
    spec fn le(self, other: Self) -> bool;

    proof fn le_total(a: Self, b: Self)
        ensures
            a.le(b) || b.le(a),
    ;

    proof fn le_transitive(a: Self, b: Self, c: Self)
        requires
            a.le(b),
            b.le(c),
        ensures
            a.le(c),
    ;

    /// Whether the value stands before `other` or has the same rank.
    fn is_le(&self, other: &Self) -> (r: bool)
        ensures
            r == self.le(*other),
    ;
}

/// The ascending order of ranked values.
pub open spec fn ascending<K: Ranked>() -> spec_fn(K, K) -> bool {
    |a: K, b: K| a.le(b)
}

proof fn lemma_push_keeps_contents(s: Seq<int>, x: int)
    ensures
        forall|y: int| s.contains(y) ==> s.push(x).contains(y),
        s.push(x).contains(x),
{
    assert forall|y: int| s.contains(y) implies s.push(x).contains(y) by {
        let i = s.index_of(y);
        assert(s.push(x)[i] == y);
    }
    assert(s.push(x)[s.len() as int] == x);
}

/// Merges the stable orders of two neighbouring ranges.
fn merged<K: Ranked>(
    keys: &Vec<K>,
    left: &Vec<usize>,
    right: &Vec<usize>,
    Ghost(lo): Ghost<int>,
    Ghost(mid): Ghost<int>,
    Ghost(hi): Ghost<int>,
) -> (out: Vec<usize>)
    requires
        0 <= lo <= mid <= hi <= keys.len(),
        orders_range(keys@, ascending::<K>(), ints(left@), lo, mid),
        orders_range(keys@, ascending::<K>(), ints(right@), mid, hi),
    ensures
        orders_range(keys@, ascending::<K>(), ints(out@), lo, hi),
{
    let ghost le = ascending::<K>();
    let ghost l = ints(left@);
    let ghost r = ints(right@);
    let mut out: Vec<usize> = Vec::new();
    let mut i: usize = 0;
    let mut j: usize = 0;
    while i < left.len() || j < right.len()
        invariant
            0 <= lo <= mid <= hi <= keys.len(),
            le == ascending::<K>(),
            l == ints(left@),
            r == ints(right@),
            i <= left.len(),
            j <= right.len(),
            orders_range(keys@, le, l, lo, mid),
            orders_range(keys@, le, r, mid, hi),
            out.len() == i + j,
            forall|k: int| 0 <= k < out.len() ==> lo <= #[trigger] ints(out@)[k] < hi,
            forall|a: int, b: int|
                0 <= a < b < out.len() ==> precedes(
                    keys@,
                    le,
                    #[trigger] ints(out@)[a],
                    #[trigger] ints(out@)[b],
                ),
            forall|a: int, b: int|
                0 <= a < out.len() && i <= b < l.len() ==> precedes(
                    keys@,
                    le,
                    #[trigger] ints(out@)[a],
                    #[trigger] l[b],
                ),
            forall|a: int, b: int|
                0 <= a < out.len() && j <= b < r.len() ==> precedes(
                    keys@,
                    le,
                    #[trigger] ints(out@)[a],
                    #[trigger] r[b],
                ),
            forall|a: int| 0 <= a < i ==> ints(out@).contains(#[trigger] l[a]),
            forall|a: int| 0 <= a < j ==> ints(out@).contains(#[trigger] r[a]),
        decreases left.len() - i + right.len() - j,
    {
        let take_left: bool = if i < left.len() {
            if j < right.len() {
                assert(l[i as int] == left@[i as int]);
                assert(r[j as int] == right@[j as int]);
                keys[left[i]].is_le(&keys[right[j]])
            } else {
                true
            }
        } else {
            false
        };
        let ghost before = ints(out@);
        if take_left {
            let x: usize = left[i];
            proof {
                assert(l[i as int] == x as int);
                assert forall|b: int| j <= b < r.len() implies precedes(
                    keys@,
                    le,
                    x as int,
                    #[trigger] r[b],
                ) by {
                    if b > j {
                        assert(precedes(keys@, le, r[j as int], r[b]));
                        K::le_transitive(keys@[x as int], keys@[r[j as int]], keys@[r[b]]);
                    }
                }
                lemma_push_keeps_contents(before, x as int);
            }
            out.push(x);
            proof {
                assert(ints(out@) =~= before.push(x as int));
            }
            i = i + 1;
        } else {
            let x: usize = right[j];
            proof {
                assert(r[j as int] == x as int);
                assert forall|b: int| i <= b < l.len() implies precedes(
                    keys@,
                    le,
                    x as int,
                    #[trigger] l[b],
                ) by {
                    let front = l[i as int];
                    K::le_total(keys@[front], keys@[x as int]);
                    if b > i {
                        assert(precedes(keys@, le, front, l[b]));
                        K::le_transitive(keys@[x as int], keys@[front], keys@[l[b]]);
                        if keys@[l[b]].le(keys@[x as int]) {
                            K::le_transitive(keys@[front], keys@[l[b]], keys@[x as int]);
                        }
                    }
                }
                lemma_push_keeps_contents(before, x as int);
            }
            out.push(x);
            proof {
                assert(ints(out@) =~= before.push(x as int));
            }
            j = j + 1;
        }
    }
    proof {
        assert forall|x: int| lo <= x < hi implies #[trigger] ints(out@).contains(x) by {
            if x < mid {
                assert(l.contains(x));
                assert(l[l.index_of(x)] == x);
            } else {
                assert(r.contains(x));
                assert(r[r.index_of(x)] == x);
            }
        }
    }
    out
}

/// The stable order of the positions `lo..hi` of `keys`.
fn range_order<K: Ranked>(keys: &Vec<K>, lo: usize, hi: usize) -> (out: Vec<usize>)
    requires
        lo <= hi <= keys.len(),
    ensures
        orders_range(keys@, ascending::<K>(), ints(out@), lo as int, hi as int),
    decreases hi - lo,
{
    let mut out: Vec<usize> = Vec::new();
    if hi - lo == 0 {
        out
    } else if hi - lo == 1 {
        out.push(lo);
        proof {
            assert(ints(out@)[0] == lo as int);
            assert forall|x: int| lo <= x < hi implies #[trigger] ints(out@).contains(x) by {
                assert(ints(out@)[0] == x);
            }
        }
        out
    } else {
        let mid: usize = lo + (hi - lo) / 2;
        let left: Vec<usize> = range_order(keys, lo, mid);
        let right: Vec<usize> = range_order(keys, mid, hi);
        merged(keys, &left, &right, Ghost(lo as int), Ghost(mid as int), Ghost(hi as int))
    }
}

/// The positions of `keys` in stable ascending order.
pub fn stable_order<K: Ranked>(keys: &Vec<K>) -> (order: Vec<usize>)
    ensures
        is_stable_order(keys@, ascending::<K>(), ints(order@)),
{
    range_order(keys, 0, keys.len())
}

/// The items at the listed positions.
pub fn arrange<T: Copy>(items: &Vec<T>, order: &Vec<usize>) -> (out: Vec<T>)
    requires
        forall|i: int| 0 <= i < order.len() ==> (#[trigger] order@[i]) < items.len(),
    ensures
        out@ == ints(order@).map_values(|x: int| items@[x]),
{
    let mut out: Vec<T> = Vec::new();
    let mut i: usize = 0;
    while i < order.len()
        invariant
            i <= order.len(),
            forall|i: int| 0 <= i < order.len() ==> (#[trigger] order@[i]) < items.len(),
            out@ == ints(order@).map_values(|x: int| items@[x]).take(i as int),
        decreases order.len() - i,
    {
        out.push(items[order[i]]);
        let ghost all = ints(order@).map_values(|x: int| items@[x]);
        assert(all.take(i + 1) =~= all.take(i as int).push(items@[order@[i as int] as int]));
        i = i + 1;
    }
    assert(ints(order@).map_values(|x: int| items@[x]).take(i as int) =~= ints(order@).map_values(
        |x: int| items@[x],
    ));
    out
}

/// Any two values compare, and the comparison is transitive.
pub open spec fn is_ranking<T>(le: spec_fn(T, T) -> bool) -> bool {
    &&& forall|a: T, b: T| #[trigger] le(a, b) || #[trigger] le(b, a)
    &&& forall|a: T, b: T, c: T| #[trigger] le(a, b) && #[trigger] le(b, c) ==> le(a, c)
}

/// The first place in `order` whose element is greater than `x`.
spec fn place_of<T>(s: Seq<T>, le: spec_fn(T, T) -> bool, order: Seq<int>, x: T) -> int
    decreases order.len(),
{
    if order.len() == 0 {
        0
    } else if le(s[order.last()], x) {
        order.len() as int
    } else {
        place_of(s, le, order.drop_last(), x)
    }
}

proof fn place_divides<T>(s: Seq<T>, le: spec_fn(T, T) -> bool, order: Seq<int>, x: T)
    requires
        is_ranking(le),
        forall|i: int, j: int| 0 <= i < j < order.len() ==> le(s[order[i]], s[order[j]]),
    ensures
        0 <= place_of(s, le, order, x) <= order.len(),
        forall|i: int| 0 <= i < place_of(s, le, order, x) ==> le(s[#[trigger] order[i]], x),
        forall|i: int|
            place_of(s, le, order, x) <= i < order.len() ==> !le(s[#[trigger] order[i]], x),
    decreases order.len(),
{
    if order.len() > 0 {
        if le(s[order.last()], x) {
            assert forall|i: int| 0 <= i < order.len() implies le(s[#[trigger] order[i]], x) by {
                if i < order.len() - 1 {
                    assert(le(s[order[i]], s[order[order.len() - 1]]));
                }
            }
        } else {
            place_divides(s, le, order.drop_last(), x);
            assert forall|i: int|
                place_of(s, le, order, x) <= i < order.len() implies !le(
                s[#[trigger] order[i]],
                x,
            ) by {
                if i < order.len() - 1 {
                    assert(order.drop_last()[i] == order[i]);
                }
            }
            assert forall|i: int| 0 <= i < place_of(s, le, order, x) implies le(
                s[#[trigger] order[i]],
                x,
            ) by {
                assert(order.drop_last()[i] == order[i]);
            }
        }
    }
}

/// Every list has a stable order.
pub proof fn stable_order_exists<T>(s: Seq<T>, le: spec_fn(T, T) -> bool) -> (order: Seq<int>)
    requires
        is_ranking(le),
    ensures
        is_stable_order(s, le, order),
    decreases s.len(),
{
    if s.len() == 0 {
        Seq::<int>::empty()
    } else {
        let n = s.len() - 1;
        let front = s.drop_last();
        let x = s.last();
        let before = stable_order_exists(front, le);
        assert forall|i: int, j: int| 0 <= i < j < before.len() implies le(
            s[before[i]],
            s[before[j]],
        ) && precedes(s, le, before[i], before[j]) by {
            assert(precedes(front, le, before[i], before[j]));
            assert(front[before[i]] == s[before[i]]);
            assert(front[before[j]] == s[before[j]]);
        }
        let p = place_of(s, le, before, x);
        place_divides(s, le, before, x);
        let order = before.insert(p, n);
        assert forall|i: int| 0 <= i < order.len() implies 0 <= #[trigger] order[i] < s.len() by {
            if i < p {
                assert(order[i] == before[i]);
            } else if i > p {
                assert(order[i] == before[i - 1]);
            }
        }
        assert forall|y: int| 0 <= y < s.len() implies #[trigger] order.contains(y) by {
            if y == n {
                assert(order[p] == n);
            } else {
                assert(before.contains(y));
                let k = before.index_of(y);
                if k < p {
                    assert(order[k] == y);
                } else {
                    assert(order[k + 1] == y);
                }
            }
        }
        assert forall|i: int, j: int| 0 <= i < j < order.len() implies precedes(
            s,
            le,
            #[trigger] order[i],
            #[trigger] order[j],
        ) by {
            let a = if i < p {
                before[i]
            } else if i == p {
                n
            } else {
                before[i - 1]
            };
            let b = if j < p {
                before[j]
            } else if j == p {
                n
            } else {
                before[j - 1]
            };
            assert(order[i] == a && order[j] == b);
            if j == p {
                assert(le(s[before[i]], x));
            } else if i == p {
                assert(!le(s[before[j - 1]], x));
                assert(le(s[before[j - 1]], x) || le(x, s[before[j - 1]]));
            }
        }
        order
    }
}

/// The values behind a list of references.
pub open spec fn behind<T>(s: Seq<&T>) -> Seq<T> {
    s.map_values(|a: &T| *a)
}

/// The references in the stable ascending order of their keys.
pub fn refs_sorted_by_keys<'a, T, K: Ranked>(
    items: &Vec<&'a T>,
    keys: &Vec<K>,
    Ghost(le): Ghost<spec_fn(T, T) -> bool>,
) -> (out: Vec<&'a T>)
    requires
        items.len() == keys.len(),
        forall|x: int, y: int|
            0 <= x < items.len() && 0 <= y < items.len() ==> le(
                *#[trigger] items@[x],
                *#[trigger] items@[y],
            ) == keys@[x].le(keys@[y]),
    ensures
        behind(out@) == stable_sort(behind(items@), le),
{
    let order: Vec<usize> = stable_order(keys);
    let ghost list = behind(items@);
    proof {
        let asc = ascending::<K>();
        assert forall|x: int, y: int| 0 <= x < keys.len() && 0 <= y < keys.len() implies asc(
            keys@[x],
            keys@[y],
        ) == le(list[x], list[y]) by {
            assert(le(*items@[x], *items@[y]) == keys@[x].le(keys@[y]));
        }
        order_of_same_ranks(keys@, asc, list, le, ints(order@));
        arranged_is_sorted(list, le, ints(order@));
        assert forall|i: int| 0 <= i < order.len() implies (#[trigger] order@[i]) < items.len() by {
            assert(ints(order@)[i] == order@[i] as int);
        }
    }
    let out: Vec<&'a T> = arrange(items, &order);
    assert(behind(out@) =~= ints(order@).map_values(|x: int| list[x])) by {
        assert forall|i: int| 0 <= i < order.len() implies 0 <= #[trigger] ints(order@)[i]
            < items.len() by {
            assert(order@[i] < items.len());
        }
    }
    out
}

/// The stable sort of a list has its elements and no others, in ascending order.
pub proof fn sort_keeps_elements<T>(s: Seq<T>, le: spec_fn(T, T) -> bool)
    requires
        is_ranking(le),
    ensures
        stable_sort(s, le).len() == s.len(),
        forall|x: T| stable_sort(s, le).contains(x) <==> s.contains(x),
        forall|i: int, j: int|
            0 <= i < j < s.len() ==> le(stable_sort(s, le)[i], stable_sort(s, le)[j]),
{
    let order = stable_order_exists(s, le);
    arranged_is_sorted(s, le, order);
    let sorted = stable_sort(s, le);
    assert forall|x: T| sorted.contains(x) <==> s.contains(x) by {
        sort_keeps_element(s, le, order, x);
    }
    assert forall|i: int, j: int| 0 <= i < j < s.len() implies le(sorted[i], sorted[j]) by {
        assert(precedes(s, le, order[i], order[j]));
    }
}

/// Two places of the sorted list hold the elements of two different places of the list.
pub proof fn sorted_places_differ<T>(s: Seq<T>, le: spec_fn(T, T) -> bool, a: int, b: int) -> (p: (
    int,
    int,
))
    requires
        is_ranking(le),
        0 <= a < b < s.len(),
    ensures
        0 <= p.0 < s.len(),
        0 <= p.1 < s.len(),
        p.0 != p.1,
        stable_sort(s, le)[a] == s[p.0],
        stable_sort(s, le)[b] == s[p.1],
        le(s[p.0], s[p.1]),
        le(s[p.1], s[p.0]) ==> p.0 < p.1,
{
    let order = stable_order_exists(s, le);
    arranged_is_sorted(s, le, order);
    assert(precedes(s, le, order[a], order[b]));
    assert(le(s[order[a]], s[order[a]]));
    (order[a], order[b])
}

/// Sorting a sorted list changes nothing.
pub proof fn sort_is_idempotent<T>(s: Seq<T>, le: spec_fn(T, T) -> bool)
    requires
        is_ranking(le),
    ensures
        stable_sort(stable_sort(s, le), le) == stable_sort(s, le),
{
    sort_keeps_elements(s, le);
    sorted_list_is_unchanged(stable_sort(s, le), le);
}

proof fn sort_keeps_element<T>(s: Seq<T>, le: spec_fn(T, T) -> bool, order: Seq<int>, x: T)
    requires
        is_stable_order(s, le, order),
    ensures
        stable_sort(s, le).contains(x) <==> s.contains(x),
{
    arranged_is_sorted(s, le, order);
    let sorted = stable_sort(s, le);
    if s.contains(x) {
        let i = s.index_of(x);
        assert(order.contains(i));
        let k = order.index_of(i);
        assert(sorted[k] == x);
    }
    if sorted.contains(x) {
        let k = sorted.index_of(x);
        assert(s[order[k]] == x);
    }
}

impl Ranked for String {
    open spec fn le(self, other: Self) -> bool {
        crate::text::text_le(self@, other@)
    }

    proof fn le_total(a: Self, b: Self) {
        crate::text::text_le_total(a@, b@);
    }

    proof fn le_transitive(a: Self, b: Self, c: Self) {
        crate::text::text_le_transitive(a@, b@, c@);
    }

    fn is_le(&self, other: &Self) -> (r: bool) {
        at_or_before(self.as_str(), other.as_str())
    }
}

impl Ranked for u64 {
    open spec fn le(self, other: Self) -> bool {
        self <= other
    }

    proof fn le_total(a: Self, b: Self) {
    }

    proof fn le_transitive(a: Self, b: Self, c: Self) {
    }

    fn is_le(&self, other: &Self) -> (r: bool) {
        *self <= *other
    }
}

/// A key that ranks the other way round: the greatest first.
pub struct Descending<K: Ranked> {
    pub key: K,
}

impl<K: Ranked> Ranked for Descending<K> {
    open spec fn le(self, other: Self) -> bool {
        other.key.le(self.key)
    }

    proof fn le_total(a: Self, b: Self) {
        K::le_total(a.key, b.key);
    }

    proof fn le_transitive(a: Self, b: Self, c: Self) {
        K::le_transitive(c.key, b.key, a.key);
    }

    fn is_le(&self, other: &Self) -> (r: bool) {
        other.key.is_le(&self.key)
    }
}

/// A key of two parts; the second decides where the first has the same rank.
pub struct Then<A: Ranked, B: Ranked> {
    pub first: A,
    pub second: B,
}

impl<A: Ranked, B: Ranked> Ranked for Then<A, B> {
    open spec fn le(self, other: Self) -> bool {
        self.first.le(other.first) && (other.first.le(self.first) ==> self.second.le(other.second))
    }

    proof fn le_total(a: Self, b: Self) {
        A::le_total(a.first, b.first);
        B::le_total(a.second, b.second);
    }

    proof fn le_transitive(a: Self, b: Self, c: Self) {
        A::le_transitive(a.first, b.first, c.first);
        if c.first.le(a.first) {
            A::le_transitive(b.first, c.first, a.first);
            A::le_transitive(c.first, a.first, b.first);
            B::le_transitive(a.second, b.second, c.second);
        }
    }

    fn is_le(&self, other: &Self) -> (r: bool) {
        if self.first.is_le(&other.first) {
            if other.first.is_le(&self.first) {
                self.second.is_le(&other.second)
            } else {
                true
            }
        } else {
            false
        }
    }
}

} // verus!
