//! Stable sorting.
use vstd::prelude::*;

use crate::text;
use crate::text::text_less;

verus! {

/// A value that has a place among others of its kind.
pub trait Ranked: DeepView {
    /// Whether `a` belongs before `b`.
    spec fn ranks_before(a: <Self as DeepView>::V, b: <Self as DeepView>::V) -> bool;

    /// Whether this value belongs before the other.
    fn comes_before(&self, other: &Self) -> (before: bool)
        ensures
            before == Self::ranks_before(self.deep_view(), other.deep_view()),
    ;
}

/// The order of a kind of values, as a function.
pub open spec fn rank_of<T: Ranked>() -> spec_fn(<T as DeepView>::V, <T as DeepView>::V) -> bool {
    |a: <T as DeepView>::V, b: <T as DeepView>::V| T::ranks_before(a, b)
}

/// `row` with `x` behind everything that does not belong after it.
pub open spec fn placed<A>(row: Seq<A>, x: A, before: spec_fn(A, A) -> bool) -> Seq<A>
    decreases row.len(),
{
    if row.len() > 0 && before(x, row.last()) {
        placed(row.drop_last(), x, before).push(row.last())
    } else {
        row.push(x)
    }
}

/// `row` in order, with what has no order between it left as it stood.
pub open spec fn sorted<A>(row: Seq<A>, before: spec_fn(A, A) -> bool) -> Seq<A>
    decreases row.len(),
{
    if row.len() == 0 {
        row
    } else {
        placed(sorted(row.drop_last(), before), row.last(), before)
    }
}

/// Whether nothing stands before something it belongs after.
pub open spec fn in_order<A>(row: Seq<A>, before: spec_fn(A, A) -> bool) -> bool {
    forall|i: int, j: int| 0 <= i < j < row.len() ==> !before(#[trigger] row[j], #[trigger] row[i])
}

/// An order by a key that is itself totally ordered.
pub open spec fn is_ranking<A>(before: spec_fn(A, A) -> bool) -> bool {
    &&& forall|a: A, b: A| #[trigger] before(a, b) ==> !before(b, a)
    &&& forall|a: A, b: A, c: A|
        #[trigger] before(a, b) && !before(c, b) ==> #[trigger] before(a, c)
}

proof fn lemma_placed_contents<A>(row: Seq<A>, x: A, before: spec_fn(A, A) -> bool)
    ensures
        placed(row, x, before).to_multiset() == row.to_multiset().insert(x),
        placed(row, x, before).len() == row.len() + 1,
    decreases row.len(),
{
    broadcast use vstd::seq_lib::group_to_multiset_ensures;

    if row.len() > 0 && before(x, row.last()) {
        lemma_placed_contents(row.drop_last(), x, before);
        assert(row =~= row.drop_last().push(row.last()));
        assert(placed(row, x, before).to_multiset() =~= row.to_multiset().insert(x));
    }
}

/// Sorting keeps what is there: the same values, each as often as before.
pub proof fn sorting_keeps_the_contents<A>(row: Seq<A>, before: spec_fn(A, A) -> bool)
    ensures
        sorted(row, before).to_multiset() == row.to_multiset(),
        sorted(row, before).len() == row.len(),
    decreases row.len(),
{
    broadcast use vstd::seq_lib::group_to_multiset_ensures;

    if row.len() > 0 {
        sorting_keeps_the_contents(row.drop_last(), before);
        lemma_placed_contents(sorted(row.drop_last(), before), row.last(), before);
        assert(row =~= row.drop_last().push(row.last()));
    }
}

proof fn lemma_placed_in_order<A>(row: Seq<A>, x: A, before: spec_fn(A, A) -> bool)
    requires
        is_ranking(before),
        in_order(row, before),
    ensures
        in_order(placed(row, x, before), before),
        forall|i: int|
            0 <= i < placed(row, x, before).len() ==> #[trigger] placed(row, x, before)[i] == x
                || row.contains(placed(row, x, before)[i]),
    decreases row.len(),
{
    let all = placed(row, x, before);
    if row.len() > 0 && before(x, row.last()) {
        let rest = row.drop_last();
        lemma_placed_in_order(rest, x, before);
        let head = placed(rest, x, before);
        assert forall|i: int| 0 <= i < all.len() implies #[trigger] all[i] == x || row.contains(
            all[i],
        ) by {
            if i < head.len() {
                assert(all[i] == head[i]);
                if head[i] != x {
                    let k = choose|k: int| 0 <= k < rest.len() && rest[k] == head[i];
                    assert(row[k] == all[i]);
                }
            } else {
                assert(row[row.len() - 1] == all[i]);
            }
        }
        assert forall|i: int, j: int| 0 <= i < j < all.len() implies !before(
            #[trigger] all[j],
            #[trigger] all[i],
        ) by {
            if j < head.len() {
                assert(head[i] == all[i] && head[j] == all[j]);
            } else {
                assert(all[i] == head[i]);
                if head[i] == x {
                    assert(before(x, row.last()));
                } else {
                    let k = choose|k: int| 0 <= k < rest.len() && rest[k] == head[i];
                    assert(row[k] == head[i] && row[row.len() - 1] == row.last());
                }
            }
        }
    } else {
        assert forall|i: int| 0 <= i < all.len() implies #[trigger] all[i] == x || row.contains(
            all[i],
        ) by {
            if i < row.len() {
                assert(row[i] == all[i]);
            }
        }
        assert forall|i: int, j: int| 0 <= i < j < all.len() implies !before(
            #[trigger] all[j],
            #[trigger] all[i],
        ) by {
            if j < row.len() {
                assert(row[i] == all[i] && row[j] == all[j]);
            } else if before(x, row[i]) {
                // What belongs before a member belongs before all behind it.
                if i < row.len() - 1 {
                    assert(!before(row[row.len() - 1], row[i]));
                }
                assert(before(x, row.last()));
            }
        }
    }
}

/// Sorting by a ranking puts things in order.
pub proof fn sorting_puts_in_order<A>(row: Seq<A>, before: spec_fn(A, A) -> bool)
    requires
        is_ranking(before),
    ensures
        in_order(sorted(row, before), before),
    decreases row.len(),
{
    if row.len() > 0 {
        sorting_puts_in_order(row.drop_last(), before);
        lemma_placed_in_order(sorted(row.drop_last(), before), row.last(), before);
    }
}

/// There is one way to put different things in order, where any two of them
/// have an order between them.
pub proof fn lemma_one_order<A>(s: Seq<A>, t: Seq<A>, before: spec_fn(A, A) -> bool)
    requires
        is_ranking(before),
        s.to_multiset() == t.to_multiset(),
        in_order(s, before),
        in_order(t, before),
        forall|i: int, j: int|
            0 <= i < s.len() && 0 <= j < s.len() && s[i] != s[j] ==> before(
                #[trigger] s[i],
                #[trigger] s[j],
            ) || before(s[j], s[i]),
    ensures
        s == t,
    decreases s.len(),
{
    broadcast use vstd::seq_lib::group_to_multiset_ensures;

    assert(s.len() == t.len()) by {
        assert(s.to_multiset().len() == s.len());
        assert(t.to_multiset().len() == t.len());
    }
    if s.len() == 0 {
        assert(s =~= t);
    } else {
        let a = s.last();
        let b = t.last();
        assert(s[s.len() - 1] == a && t[t.len() - 1] == b);
        assert(s.contains(a) && t.contains(b));
        assert(t.to_multiset().count(a) > 0 && s.to_multiset().count(b) > 0);
        assert(t.contains(a) && s.contains(b));
        let i = choose|i: int| 0 <= i < t.len() && t[i] == a;
        let j = choose|j: int| 0 <= j < s.len() && s[j] == b;
        if a != b {
            assert(i < t.len() - 1 && j < s.len() - 1);
            assert(!before(t[t.len() - 1], t[i]));
            assert(!before(s[s.len() - 1], s[j]));
            assert(before(s[j], s[s.len() - 1]) || before(s[s.len() - 1], s[j]));
        }
        let x = s.drop_last();
        let y = t.drop_last();
        assert(s =~= x.push(a) && t =~= y.push(b));
        assert(x.to_multiset() =~= s.to_multiset().remove(a));
        assert(y.to_multiset() =~= t.to_multiset().remove(b));
        assert forall|i: int, j: int|
            0 <= i < x.len() && 0 <= j < x.len() && x[i] != x[j] implies before(
            #[trigger] x[i],
            #[trigger] x[j],
        ) || before(x[j], x[i]) by {
            assert(s[i] == x[i] && s[j] == x[j]);
        }
        assert forall|i: int, j: int| 0 <= i < j < x.len() implies !before(
            #[trigger] x[j],
            #[trigger] x[i],
        ) by {
            assert(s[i] == x[i] && s[j] == x[j]);
        }
        assert forall|i: int, j: int| 0 <= i < j < y.len() implies !before(
            #[trigger] y[j],
            #[trigger] y[i],
        ) by {
            assert(t[i] == y[i] && t[j] == y[j]);
        }
        lemma_one_order(x, y, before);
    }
}

/// An order by text is a ranking.
pub proof fn lemma_text_key_ranking<A>(key: spec_fn(A) -> Seq<char>)
    ensures
        is_ranking(|a: A, b: A| text_less(key(a), key(b))),
{
    let before = |a: A, b: A| text_less(key(a), key(b));
    assert forall|a: A, b: A| #[trigger] before(a, b) implies !before(b, a) by {
        text::text_order_is_strict_and_total(key(a), key(b));
    }
    assert forall|a: A, b: A, c: A|
        #[trigger] before(a, b) && !before(c, b) implies #[trigger] before(a, c) by {
        text::text_order_is_strict_and_total(key(c), key(b));
        if key(c) != key(b) {
            text::text_order_is_transitive(key(a), key(b), key(c));
        }
    }
}

proof fn lemma_placed_at<A>(row: Seq<A>, x: A, at: int, before: spec_fn(A, A) -> bool)
    requires
        0 <= at <= row.len(),
        forall|j: int| at <= j < row.len() ==> before(x, #[trigger] row[j]),
        at > 0 ==> !before(x, row[at - 1]),
    ensures
        placed(row, x, before) == row.insert(at, x),
    decreases row.len(),
{
    if at < row.len() {
        lemma_placed_at(row.drop_last(), x, at, before);
        assert(row.insert(at, x) =~= row.drop_last().insert(at, x).push(row.last()));
    } else {
        assert(row.insert(at, x) =~= row.push(x));
    }
}

/// Sorts by the values' own order, leaving equals as they stood.
pub fn sort<T: Ranked>(items: Vec<T>) -> (row: Vec<T>)
    ensures
        row.deep_view() == sorted(items.deep_view(), rank_of::<T>()),
{
    let mut rest = items;
    let mut row: Vec<T> = Vec::new();
    let ghost all = items.deep_view();
    let ghost before = rank_of::<T>();
    proof {
        assert(all.take(0) =~= Seq::empty());
        assert(rest.deep_view() =~= all.skip(0));
        assert(row.deep_view() =~= Seq::empty());
    }
    let ghost mut taken: int = 0;
    while rest.len() > 0
        invariant
            before == rank_of::<T>(),
            0 <= taken,
            taken + rest.len() == all.len(),
            all.len() == items@.len(),
            rest.deep_view() == all.skip(taken),
            row.deep_view() == sorted(all.take(taken), before),
        decreases rest.len(),
    {
        let ghost untaken = rest.deep_view();
        let x = rest.remove(0);
        let ghost value = x.deep_view();
        proof {
            assert(value == untaken[0]);
            assert(value == all[taken]);
            assert forall|i: int| 0 <= i < rest.len() implies #[trigger] rest.deep_view()[i]
                == untaken[i + 1] by {}
            assert(rest.deep_view() =~= all.skip(taken + 1));
        }
        let mut at: usize = row.len();
        let ghost placed_so_far = row.deep_view();
        while at > 0 && x.comes_before(&row[at - 1])
            invariant
                at <= row.len(),
                before == rank_of::<T>(),
                value == x.deep_view(),
                placed_so_far == row.deep_view(),
                forall|j: int| at <= j < row.len() ==> before(value, #[trigger] placed_so_far[j]),
            decreases at,
        {
            at = at - 1;
            assert(placed_so_far[at as int] == row[at as int].deep_view());
        }
        proof {
            if at > 0 {
                assert(placed_so_far[at - 1] == row[at - 1].deep_view());
            }
            lemma_placed_at(placed_so_far, value, at as int, before);
            assert(all.take(taken + 1).drop_last() =~= all.take(taken));
        }
        row.insert(at, x);
        proof {
            assert(row.deep_view() =~= placed_so_far.insert(at as int, value));
        }
        proof {
            taken = taken + 1;
        }
    }
    proof {
        assert(all.take(taken) =~= all);
    }
    row
}

} // verus!
