//! Stable sorting by a total preorder.
use vstd::prelude::*;

verus! {

/// Values that can be put in order.
pub trait Ranked: Sized {
    /// Whether `self` ranks before `other` or level with it.
    spec fn le(&self, other: &Self) -> bool;

    proof fn le_total(a: &Self, b: &Self)
        ensures
            a.le(b) || b.le(a),
    ;

    proof fn le_transitive(a: &Self, b: &Self, c: &Self)
        requires
            a.le(b),
            b.le(c),
        ensures
            a.le(c),
    ;

    fn ranks_le(&self, other: &Self) -> (r: bool)
        ensures
            r == self.le(other),
    ;
}

/// Whether two values rank level.
pub open spec fn tied<T: Ranked>(a: T, b: T) -> bool {
    a.le(&b) && b.le(&a)
}

/// The values of `s` that rank level with `k`, in the order of `s`.
pub open spec fn level_with<T: Ranked>(s: Seq<T>, k: T) -> Seq<T> {
    s.filter(|x: T| tied(x, k))
}

pub open spec fn in_order<T: Ranked>(s: Seq<T>) -> bool {
    forall|i: int, j: int| #![trigger s[i], s[j]] 0 <= i < j < s.len() ==> s[i].le(&s[j])
}

/// Whether `after` is `before` put in order, values that rank level staying in their old order.
pub open spec fn stably_sorted<T: Ranked>(before: Seq<T>, after: Seq<T>) -> bool {
    &&& in_order(after)
    &&& after.to_multiset() == before.to_multiset()
    &&& forall|k: T| #[trigger] level_with(after, k) == level_with(before, k)
}

proof fn insert_keeps_levels<T: Ranked>(s: Seq<T>, at: int, x: T)
    requires
        in_order(s),
        0 <= at <= s.len(),
        forall|j: int| at <= j < s.len() ==> !(#[trigger] s[j]).le(&x),
    ensures
        forall|k: T| #[trigger] level_with(s.insert(at, x), k) == level_with(s.push(x), k),
{
    let head = s.take(at);
    let tail = s.skip(at);
    assert(s =~= head + tail);
    assert(s.insert(at, x) =~= head.push(x) + tail);
    assert(s.push(x) =~= head + tail.push(x));
    assert forall|k: T| #[trigger] level_with(s.insert(at, x), k) == level_with(s.push(x), k) by {
        let p = |y: T| tied(y, k);
        Seq::filter_distributes_over_add(head.push(x), tail, p);
        Seq::filter_distributes_over_add(head, tail.push(x), p);
        head.lemma_filter_push(x, p);
        tail.lemma_filter_push(x, p);
        if p(x) {
            assert forall|j: int| 0 <= j < tail.len() implies !p(#[trigger] tail[j]) by {
                assert(tail[j] == s[at + j]);
                if p(tail[j]) {
                    T::le_transitive(&tail[j], &k, &x);
                }
            }
            tail.lemma_all_neg_filter_empty(p);
            assert(tail.filter(p) =~= Seq::<T>::empty());
            assert(level_with(s.insert(at, x), k) =~= level_with(s.push(x), k));
        } else {
            assert(level_with(s.insert(at, x), k) =~= level_with(s.push(x), k));
        }
    }
}

/// Sorts; values that rank level stay in their old order.
pub fn stable_sort<T: Ranked>(items: Vec<T>) -> (r: Vec<T>)
    ensures
        stably_sorted(items@, r@),
        r@.len() == items@.len(),
{
    let ghost all = items@;
    let mut rest = items;
    let mut out: Vec<T> = Vec::new();
    let ghost mut done: int = 0;
    assert(all.take(0) =~= Seq::<T>::empty());
    assert(rest@ =~= all.skip(0));
    while rest.len() > 0
        invariant
            0 <= done <= all.len(),
            rest@ == all.skip(done),
            out@.len() == done,
            stably_sorted(all.take(done), out@),
        decreases rest@.len(),
    {
        let x = rest.remove(0);
        let ghost before = out@;
        let mut at: usize = out.len();
        while at > 0 && !out[at - 1].ranks_le(&x)
            invariant
                at <= out@.len(),
                out@ == before,
                forall|j: int| at <= j < out@.len() ==> !(#[trigger] out@[j]).le(&x),
            decreases at,
        {
            at = at - 1;
        }
        proof {
            insert_keeps_levels(before, at as int, x);
            let grown = before.insert(at as int, x);
            assert forall|i: int, j: int|
                #![trigger grown[i], grown[j]]
                0 <= i < j < grown.len() implies grown[i].le(&grown[j]) by {
                if j == at {
                    assert(before[at as int - 1].le(&x));
                    if i < at - 1 {
                        T::le_transitive(&before[i], &before[at as int - 1], &x);
                    }
                }
                if i == at {
                    let y = before[j - 1];
                    assert(!y.le(&x));
                    T::le_total(&x, &y);
                }
            }
            assert(all.take(done + 1) =~= all.take(done).push(x));
            assert(all.skip(done).remove(0) =~= all.skip(done + 1));
            assert forall|k: T| #[trigger]
                level_with(before.insert(at as int, x), k) == level_with(all.take(done + 1), k) by {
                let p = |y: T| tied(y, k);
                assert(level_with(before, k) == level_with(all.take(done), k));
                before.lemma_filter_push(x, p);
                all.take(done).lemma_filter_push(x, p);
            }
            vstd::seq_lib::to_multiset_insert(before, at as int, x);
            vstd::seq_lib::to_multiset_build(all.take(done), x);
        }
        out.insert(at, x);
        proof {
            done = done + 1;
        }
    }
    assert(all.take(all.len() as int) =~= all);
    out
}

/// Whether value `i` is the first of those that rank before or level with all others.
pub open spec fn leads<T: Ranked>(items: Seq<T>, i: int) -> bool {
    &&& 0 <= i < items.len()
    &&& forall|j: int| 0 <= j < items.len() ==> items[i].le(&#[trigger] items[j])
    &&& forall|j: int| 0 <= j < i ==> !(#[trigger] items[j]).le(&items[i])
}

/// Finds the first of the values that rank before or level with all others.
pub fn leader<T: Ranked>(items: &Vec<T>) -> (r: Option<usize>)
    ensures
        match r {
            Some(i) => leads(items@, i as int),
            None => items@.len() == 0,
        },
{
    if items.len() == 0 {
        return None;
    }
    let mut best: usize = 0;
    let mut i: usize = 1;
    proof {
        T::le_total(&items@[0], &items@[0]);
    }
    while i < items.len()
        invariant
            best < i <= items@.len(),
            forall|j: int| 0 <= j < i ==> items@[best as int].le(&#[trigger] items@[j]),
            forall|j: int| 0 <= j < best ==> !(#[trigger] items@[j]).le(&items@[best as int]),
        decreases items@.len() - i,
    {
        if !items[best].ranks_le(&items[i]) {
            proof {
                let (old_best, new_best) = (items@[best as int], items@[i as int]);
                T::le_total(&old_best, &new_best);
                T::le_total(&new_best, &new_best);
                assert forall|j: int| 0 <= j < i + 1 implies new_best.le(&#[trigger] items@[j]) by {
                    if j < i {
                        T::le_transitive(&new_best, &old_best, &items@[j]);
                    }
                }
                assert forall|j: int| 0 <= j < i implies !(#[trigger] items@[j]).le(&new_best) by {
                    if items@[j].le(&new_best) {
                        T::le_transitive(&old_best, &items@[j], &new_best);
                    }
                }
            }
            best = i;
        }
        i = i + 1;
    }
    Some(best)
}

/// Sorting loses nothing and adds nothing.
pub proof fn sorted_has_the_same_members<T: Ranked>(before: Seq<T>, after: Seq<T>, x: T)
    requires
        stably_sorted(before, after),
    ensures
        before.contains(x) == after.contains(x),
{
    before.to_multiset_ensures();
    after.to_multiset_ensures();
    assert(before.contains(x) == (before.to_multiset().count(x) > 0));
    assert(after.contains(x) == (after.to_multiset().count(x) > 0));
}

/// Two lists of the same values, both in order, are one list, as long as no two different values
/// rank level.
pub proof fn order_is_unique<T: Ranked>(a: Seq<T>, b: Seq<T>)
    requires
        in_order(a),
        in_order(b),
        a.to_multiset() == b.to_multiset(),
        forall|i: int, j: int|
            #![trigger a[i], a[j]]
            0 <= i < a.len() && 0 <= j < a.len() && tied(a[i], a[j]) ==> a[i] == a[j],
    ensures
        a == b,
    decreases a.len(),
{
    a.to_multiset_ensures();
    b.to_multiset_ensures();
    assert(a.len() == b.len());
    if a.len() == 0 {
        assert(a =~= b);
    } else {
        let (x, y) = (a[0], b[0]);
        assert(a.contains(x) && b.contains(y));
        assert(a.to_multiset().count(x) > 0);
        assert(b.to_multiset().count(y) > 0);
        assert(b.contains(x) && a.contains(y));
        let i = choose|i: int| 0 <= i < a.len() && a[i] == y;
        let j = choose|j: int| 0 <= j < b.len() && b[j] == x;
        T::le_total(&x, &x);
        T::le_total(&y, &y);
        assert(a[0].le(&a[i]));
        assert(b[0].le(&b[j]));
        assert(tied(a[0], a[i]));
        assert(x == y);
        let (rest_a, rest_b) = (a.remove(0), b.remove(0));
        assert forall|k: int, l: int|
            #![trigger rest_a[k], rest_a[l]]
            0 <= k < rest_a.len() && 0 <= l < rest_a.len() && tied(
                rest_a[k],
                rest_a[l],
            ) implies rest_a[k] == rest_a[l] by {
            assert(tied(a[k + 1], a[l + 1]));
        }
        assert(in_order(rest_a)) by {
            assert forall|k: int, l: int|
                #![trigger rest_a[k], rest_a[l]]
                0 <= k < l < rest_a.len() implies rest_a[k].le(&rest_a[l]) by {
                assert(a[k + 1].le(&a[l + 1]));
            }
        }
        assert(in_order(rest_b)) by {
            assert forall|k: int, l: int|
                #![trigger rest_b[k], rest_b[l]]
                0 <= k < l < rest_b.len() implies rest_b[k].le(&rest_b[l]) by {
                assert(b[k + 1].le(&b[l + 1]));
            }
        }
        assert(rest_a.to_multiset() =~= rest_b.to_multiset());
        order_is_unique(rest_a, rest_b);
        assert(a =~= seq![x] + rest_a);
        assert(b =~= seq![y] + rest_b);
    }
}

/// Sorting puts every value in front of those that rank after it, keeps each, and leaves values
/// that rank level in the order in which they came.
pub proof fn sorting_puts_values_in_order<T: Ranked>(
    items: Vec<T>,
    r: Vec<T>,
    i: int,
    j: int,
    x: T,
)
    requires
        call_ensures(stable_sort::<T>, (items,), r),
        0 <= i < j < r@.len(),
    ensures
        r@[i].le(&r@[j]),
        r@.len() == items@.len(),
        items@.contains(x) == r@.contains(x),
        level_with(r@, x) == level_with(items@, x),
{
    sorted_has_the_same_members(items@, r@, x);
}

/// The leader ranks before or level with all others.
pub proof fn leaders_lead<T: Ranked>(items: Vec<T>, r: Option<usize>, j: int)
    requires
        call_ensures(leader::<T>, (&items,), r),
        0 <= j < items@.len(),
    ensures
        r is Some,
        r->0 < items@.len(),
        items@[r->0 as int].le(&items@[j]),
        j < r->0 ==> !items@[j].le(&items@[r->0 as int]),
{
}

} // verus!
