//! Facts about sequences that loops over lists rest on.
use vstd::prelude::*;

verus! {

/// Filtering one element more keeps it where it passes.
pub proof fn filter_step<T>(s: Seq<T>, keep: spec_fn(T) -> bool, i: int)
    requires
        0 <= i < s.len(),
    ensures
        s.take(i + 1).filter(keep) == if keep(s[i]) {
            s.take(i).filter(keep).push(s[i])
        } else {
            s.take(i).filter(keep)
        },
{
    reveal(Seq::filter);
    assert(s.take(i + 1).drop_last() =~= s.take(i));
}

/// Filtering nothing leaves nothing; filtering up to the end is filtering the list.
pub proof fn filter_ends<T>(s: Seq<T>, keep: spec_fn(T) -> bool)
    ensures
        s.take(0).filter(keep) == Seq::<T>::empty(),
        s.take(s.len() as int) == s,
{
    reveal(Seq::filter);
    assert(s.take(0).filter(keep) =~= Seq::<T>::empty());
    assert(s.take(s.len() as int) =~= s);
}

/// A filtered list holds the elements of the list that pass, and no others.
pub proof fn filter_contents<T>(s: Seq<T>, keep: spec_fn(T) -> bool)
    ensures
        forall|x: T| s.filter(keep).contains(x) <==> s.contains(x) && keep(x),
    decreases s.len(),
{
    reveal(Seq::filter);
    if s.len() > 0 {
        let front = s.drop_last();
        filter_contents(front, keep);
        assert forall|x: T| s.filter(keep).contains(x) <==> s.contains(x) && keep(x) by {
            let kept = front.filter(keep);
            if s.contains(x) && keep(x) {
                let i = s.index_of(x);
                if i < s.len() - 1 {
                    assert(front[i] == x);
                    assert(front.filter(keep).contains(x));
                    let k = kept.index_of(x);
                    assert(s.filter(keep)[k] == x);
                } else {
                    assert(s.filter(keep)[kept.len() as int] == x);
                }
            }
            if s.filter(keep).contains(x) {
                let k = s.filter(keep).index_of(x);
                if k < kept.len() {
                    assert(kept[k] == x);
                    assert(front.contains(x));
                    let i = front.index_of(x);
                    assert(s[i] == x);
                } else {
                    assert(s[s.len() - 1] == x);
                }
            }
        }
    }
}

/// Two elements of a filtered list stand in the list, in the same order.
pub proof fn filter_places<T>(s: Seq<T>, keep: spec_fn(T) -> bool, a: int, b: int) -> (p: (int, int))
    requires
        0 <= a < b < s.filter(keep).len(),
    ensures
        0 <= p.0 < p.1 < s.len(),
        s[p.0] == s.filter(keep)[a],
        s[p.1] == s.filter(keep)[b],
        keep(s[p.0]),
        keep(s[p.1]),
    decreases s.len(),
{
    reveal(Seq::filter);
    assert(s.len() > 0);
    let front = s.drop_last();
    let kept = front.filter(keep);
    if b < kept.len() {
        filter_places(front, keep, a, b)
    } else {
        assert(keep(s.last()));
        assert(a < kept.len());
        filter_contents(front, keep);
        let y = kept[a];
        assert(kept.contains(y));
        assert(front.contains(y) && keep(y));
        let x = front.index_of(y);
        assert(front[x] == y);
        (x, s.len() - 1)
    }
}

/// Where nothing passes, nothing is left.
pub proof fn filter_none<T>(s: Seq<T>, keep: spec_fn(T) -> bool)
    requires
        forall|i: int| 0 <= i < s.len() ==> !keep(#[trigger] s[i]),
    ensures
        s.filter(keep).len() == 0,
    decreases s.len(),
{
    reveal(Seq::filter);
    if s.len() > 0 {
        assert(!keep(s[s.len() - 1]));
        filter_none(s.drop_last(), keep);
    }
}

/// At most the first `n` elements.
pub open spec fn first_n<T>(s: Seq<T>, n: nat) -> Seq<T> {
    if s.len() <= n {
        s
    } else {
        s.take(n as int)
    }
}

/// Some element of the list passes.
pub open spec fn has<T>(s: Seq<T>, pass: spec_fn(T) -> bool) -> bool {
    exists|i: int| 0 <= i < s.len() && pass(#[trigger] s[i])
}

/// One element more can be the one that passes.
pub proof fn has_step<T>(s: Seq<T>, pass: spec_fn(T) -> bool, i: int)
    requires
        0 <= i < s.len(),
    ensures
        has(s.take(i + 1), pass) <==> has(s.take(i), pass) || pass(s[i]),
{
    let longer = s.take(i + 1);
    let shorter = s.take(i);
    if has(longer, pass) {
        let k = choose|k: int| 0 <= k < longer.len() && pass(#[trigger] longer[k]);
        if k < i {
            assert(shorter[k] == longer[k]);
        }
    }
    if has(shorter, pass) {
        let k = choose|k: int| 0 <= k < shorter.len() && pass(#[trigger] shorter[k]);
        assert(shorter[k] == longer[k]);
    }
    assert(longer[i] == s[i]);
}

/// The first element that passes.
pub open spec fn first_match<T>(s: Seq<T>, pass: spec_fn(T) -> bool) -> Option<T>
    decreases s.len(),
{
    if s.len() == 0 {
        None
    } else if pass(s[0]) {
        Some(s[0])
    } else {
        first_match(s.drop_first(), pass)
    }
}

/// The first match of a list is at its front or in the rest.
pub proof fn first_match_step<T>(s: Seq<T>, pass: spec_fn(T) -> bool, i: int)
    requires
        0 <= i < s.len(),
    ensures
        first_match(s.skip(i), pass) == if pass(s[i]) {
            Some(s[i])
        } else {
            first_match(s.skip(i + 1), pass)
        },
{
    assert(s.skip(i).drop_first() =~= s.skip(i + 1));
}

/// Skipping nothing leaves the list; skipping all of it leaves no match.
pub proof fn first_match_ends<T>(s: Seq<T>, pass: spec_fn(T) -> bool)
    ensures
        s.skip(0) == s,
        first_match(s.skip(s.len() as int), pass) is None,
{
    assert(s.skip(0) =~= s);
}

/// One element more at the end is the first match only where none stands before it.
pub proof fn first_match_of_push<T>(s: Seq<T>, x: T, pass: spec_fn(T) -> bool)
    ensures
        first_match(s.push(x), pass) == match first_match(s, pass) {
            Some(y) => Some(y),
            None => if pass(x) {
                Some(x)
            } else {
                None
            },
        },
    decreases s.len(),
{
    let longer = s.push(x);
    if s.len() == 0 {
        reveal_with_fuel(first_match, 2);
        assert(longer.drop_first() =~= Seq::<T>::empty());
    } else {
        assert(longer[0] == s[0]);
        assert(longer.drop_first() =~= s.drop_first().push(x));
        first_match_of_push(s.drop_first(), x, pass);
    }
}

/// A first match exists exactly where some element passes, and it passes.
pub proof fn first_match_is_a_match<T>(s: Seq<T>, pass: spec_fn(T) -> bool)
    ensures
        first_match(s, pass) is Some <==> has(s, pass),
        first_match(s, pass) matches Some(x) ==> pass(x) && s.contains(x),
    decreases s.len(),
{
    if s.len() > 0 {
        first_match_is_a_match(s.drop_first(), pass);
        if pass(s[0]) {
            assert(s.contains(s[0]));
        } else {
            if has(s, pass) {
                let i = choose|i: int| 0 <= i < s.len() && pass(#[trigger] s[i]);
                assert(s.drop_first()[i - 1] == s[i]);
            }
            if has(s.drop_first(), pass) {
                let i = choose|i: int|
                    0 <= i < s.drop_first().len() && pass(#[trigger] s.drop_first()[i]);
                assert(s[i + 1] == s.drop_first()[i]);
            }
            if first_match(s, pass) is Some {
                let x = first_match(s, pass)->0;
                let i = s.drop_first().index_of(x);
                assert(s[i + 1] == x);
            }
        }
    }
}

} // verus!
