//! Stable sorting and first matches, as functions on sequences.

use vstd::prelude::*;

verus! {

/// The index of the first element with property `p`, or the length.
pub open spec fn first_index<A>(s: Seq<A>, p: spec_fn(A) -> bool) -> nat
    decreases s.len(),
{
    if s.len() == 0 || p(s[0]) {
        0
    } else {
        1 + first_index(s.drop_first(), p)
    }
}

/// The index of the last element with property `p`, or -1.
pub open spec fn last_index<A>(s: Seq<A>, p: spec_fn(A) -> bool) -> int
    decreases s.len(),
{
    if s.len() == 0 {
        -1
    } else if p(s.last()) {
        s.len() - 1
    } else {
        last_index(s.drop_last(), p)
    }
}

/// The elements in the order of `less`. Elements of which neither comes first keep their order: each
/// goes in front of the first one it is less than.
pub open spec fn stably_sorted<A>(s: Seq<A>, less: spec_fn(A, A) -> bool) -> Seq<A>
    decreases s.len(),
{
    if s.len() == 0 {
        seq![]
    } else {
        let front = stably_sorted(s.drop_last(), less);
        let at = first_index(front, |y: A| less(s.last(), y));
        front.insert(at as int, s.last())
    }
}

/// No element comes behind one that it is less than.
pub open spec fn in_order<A>(s: Seq<A>, less: spec_fn(A, A) -> bool) -> bool {
    forall|i: int, j: int| 0 <= i < j < s.len() ==> !less(#[trigger] s[j], #[trigger] s[i])
}

/// A strict order in which elements that are not ordered are interchangeable.
pub open spec fn is_strict_weak_order<A>(less: spec_fn(A, A) -> bool) -> bool {
    &&& forall|a: A, b: A| #[trigger] less(a, b) ==> !less(b, a)
    &&& forall|a: A, b: A, c: A|
        #![trigger less(a, b), less(b, c)]
        !less(a, b) && !less(b, c) ==> !less(a, c)
}

/// [`first_index`] from what sets it apart.
pub proof fn lemma_first_index<A>(s: Seq<A>, p: spec_fn(A) -> bool, n: int)
    requires
        0 <= n <= s.len(),
        forall|i: int| 0 <= i < n ==> !p(#[trigger] s[i]),
        n < s.len() ==> p(s[n]),
    ensures
        first_index(s, p) == n,
    decreases s.len(),
{
    if n > 0 {
        let rest = s.drop_first();
        assert(!p(s[0]));
        assert forall|i: int| 0 <= i < n - 1 implies !p(#[trigger] rest[i]) by {
            assert(rest[i] == s[i + 1]);
        }
        lemma_first_index(rest, p, n - 1);
    }
}

/// What [`first_index`] finds.
pub proof fn lemma_first_index_bounds<A>(s: Seq<A>, p: spec_fn(A) -> bool)
    ensures
        first_index(s, p) <= s.len(),
        forall|i: int| 0 <= i < first_index(s, p) ==> !p(#[trigger] s[i]),
        first_index(s, p) < s.len() ==> p(s[first_index(s, p) as int]),
    decreases s.len(),
{
    if s.len() > 0 && !p(s[0]) {
        let rest = s.drop_first();
        lemma_first_index_bounds(rest, p);
        assert forall|i: int| 0 <= i < first_index(s, p) implies !p(#[trigger] s[i]) by {
            if i > 0 {
                assert(s[i] == rest[i - 1]);
            }
        }
    }
}

/// Filtering, one element at a time.
pub proof fn lemma_filter_last<A>(s: Seq<A>, p: spec_fn(A) -> bool)
    requires
        s.len() > 0,
    ensures
        s.filter(p) == if p(s.last()) {
            s.drop_last().filter(p).push(s.last())
        } else {
            s.drop_last().filter(p)
        },
{
    reveal(Seq::filter);
}

proof fn lemma_filter_none<A>(s: Seq<A>, p: spec_fn(A) -> bool)
    requires
        forall|i: int| 0 <= i < s.len() ==> !p(#[trigger] s[i]),
    ensures
        s.filter(p) == Seq::<A>::empty(),
    decreases s.len(),
{
    if s.len() > 0 {
        lemma_filter_last(s, p);
        lemma_filter_none(s.drop_last(), p);
    } else {
        reveal(Seq::filter);
    }
}

/// Sorting leaves nothing out, invents nothing, and puts the elements in order.
pub proof fn law_sorting_orders<A>(s: Seq<A>, less: spec_fn(A, A) -> bool)
    requires
        is_strict_weak_order(less),
    ensures
        in_order(stably_sorted(s, less), less),
        stably_sorted(s, less).to_multiset() == s.to_multiset(),
        stably_sorted(s, less).len() == s.len(),
    decreases s.len(),
{
    broadcast use vstd::seq_lib::group_to_multiset_ensures;

    if s.len() == 0 {
        assert(stably_sorted(s, less) =~= s);
    } else {
        let front = stably_sorted(s.drop_last(), less);
        let x = s.last();
        let later = |y: A| less(x, y);
        let at = first_index(front, later) as int;
        let all = front.insert(at, x);
        law_sorting_orders(s.drop_last(), less);
        lemma_first_index_bounds(front, later);
        assert forall|i: int, j: int| 0 <= i < j < all.len() implies !less(
            #[trigger] all[j],
            #[trigger] all[i],
        ) by {
            if i < at {
                assert(all[i] == front[i]);
                if j == at {
                    assert(!later(front[i]));
                } else {
                    assert(all[j] == front[if j < at {
                        j
                    } else {
                        j - 1
                    }]);
                }
            } else {
                assert(all[j] == front[j - 1]);
                if i == at {
                    assert(less(x, front[at]));
                    assert(!less(front[at], x));
                    assert(j - 1 > at ==> !less(front[j - 1], front[at]));
                } else {
                    assert(all[i] == front[i - 1]);
                }
            }
        }
        vstd::seq_lib::to_multiset_insert(front, at, x);
        assert(s =~= s.drop_last().push(x));
    }
}

/// Sorting keeps the order among the elements of a class that are not ordered among themselves.
pub proof fn law_sorting_is_stable<A>(
    s: Seq<A>,
    less: spec_fn(A, A) -> bool,
    class: spec_fn(A) -> bool,
)
    requires
        is_strict_weak_order(less),
        forall|a: A, b: A| #[trigger] class(a) && #[trigger] class(b) ==> !less(a, b),
    ensures
        stably_sorted(s, less).filter(class) == s.filter(class),
    decreases s.len(),
{
    if s.len() == 0 {
        assert(stably_sorted(s, less) =~= s);
    } else {
        let front = stably_sorted(s.drop_last(), less);
        let x = s.last();
        let later = |y: A| less(x, y);
        let at = first_index(front, later) as int;
        let all = front.insert(at, x);
        law_sorting_is_stable(s.drop_last(), less, class);
        law_sorting_orders(s.drop_last(), less);
        lemma_first_index_bounds(front, later);
        lemma_filter_last(s, class);
        let behind = front.skip(at);
        assert(front =~= front.take(at) + behind);
        assert(all =~= front.take(at).push(x) + behind);
        Seq::<A>::filter_distributes_over_add(front.take(at), behind, class);
        Seq::<A>::filter_distributes_over_add(front.take(at).push(x), behind, class);
        assert(front.take(at).push(x).drop_last() =~= front.take(at));
        lemma_filter_last(front.take(at).push(x), class);
        if class(x) {
            assert forall|i: int| 0 <= i < behind.len() implies !class(#[trigger] behind[i]) by {
                assert(behind[i] == front[at + i]);
                assert(less(x, front[at]));
                if i > 0 {
                    assert(!less(front[at + i], front[at]));
                }
            }
            lemma_filter_none(behind, class);
            assert(all.filter(class) =~= front.take(at).filter(class).push(x));
            assert(front.filter(class) =~= front.take(at).filter(class));
        }
    }
}

} // verus!
