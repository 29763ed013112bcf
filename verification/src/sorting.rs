//! A stable sort, and the orders that the scanner sorts by: levels, ranks and
//! names.
use vstd::prelude::*;
use vstd::relations::*;
use vstd::seq_lib::*;

use crate::text::chars_of;

verus! {

/// Values with a total order, in which different values may be alike.
pub trait Ordered: Sized {
    /// Whether `a` may stand before `b`.
    spec fn leq(a: Self, b: Self) -> bool;

    /// Of any two values, one may stand before the other.
    proof fn leq_total(a: Self, b: Self)
        ensures
            Self::leq(a, b) || Self::leq(b, a),
    ;

    /// The order is transitive.
    proof fn leq_transitive(a: Self, b: Self, c: Self)
        requires
            Self::leq(a, b),
            Self::leq(b, c),
        ensures
            Self::leq(a, c),
    ;

    /// Decides the order.
    fn at_most(&self, other: &Self) -> (r: bool)
        ensures
            r == Self::leq(*self, *other),
    ;
}

/// Whether the order does not tell `x` and `y` apart.
pub open spec fn alike<T: Ordered>(x: T, y: T) -> bool {
    T::leq(x, y) && T::leq(y, x)
}

/// Whether no value stands before one that it may not stand before.
pub open spec fn ascending<T: Ordered>(s: Seq<T>) -> bool {
    forall|i: int, j: int| 0 <= i < j < s.len() ==> T::leq(#[trigger] s[i], #[trigger] s[j])
}

/// The values of `s` that are alike `x`, in their order in `s`.
pub open spec fn alike_to<T: Ordered>(s: Seq<T>, x: T) -> Seq<T> {
    s.filter(|y: T| alike(x, y))
}

/// Whether `sorted` is `s` in ascending order, with values that are alike in
/// the order that they have in `s`.
pub open spec fn stably_sorted<T: Ordered>(s: Seq<T>, sorted: Seq<T>) -> bool {
    &&& ascending(sorted)
    &&& sorted.to_multiset() == s.to_multiset()
    &&& forall|x: T| #[trigger] alike_to(sorted, x) == alike_to(s, x)
}

/// Of a run that ends before `x`, none is alike to a value that `x` is alike to.
proof fn none_alike<T: Ordered>(s: Seq<T>, x: T, probe: T)
    requires
        forall|i: int| 0 <= i < s.len() ==> !T::leq(x, #[trigger] s[i]),
        alike(probe, x),
    ensures
        alike_to(s, probe) == Seq::<T>::empty(),
{
    let r = alike_to(s, probe);
    if r.len() > 0 {
        broadcast use group_filter_ensures;

        assert(alike(probe, r[0]));
        assert(s.contains(r[0])) by {
            filtered_is_contained(s, |y: T| alike(probe, y), 0);
        }
        let i = choose|i: int| 0 <= i < s.len() && s[i] == r[0];
        T::leq_transitive(x, probe, s[i]);
    }
    assert(r =~= Seq::<T>::empty());
}

/// What a filter lets through comes from the sequence.
pub proof fn filtered_is_contained<T>(s: Seq<T>, pred: spec_fn(T) -> bool, k: int)
    requires
        0 <= k < s.filter(pred).len(),
    ensures
        s.contains(s.filter(pred)[k]),
    decreases s.len(),
{
    reveal(Seq::filter);
    if s.len() > 0 {
        let init = s.drop_last();
        if k < init.filter(pred).len() {
            filtered_is_contained(init, pred, k);
            let i = choose|i: int| 0 <= i < init.len() && init[i] == init.filter(pred)[k];
            assert(s[i] == s.filter(pred)[k]);
        } else {
            assert(s[s.len() - 1] == s.filter(pred)[k]);
        }
    }
}

/// Filters that agree on every value of a sequence let through the same.
pub proof fn same_filter_keeps_same<T>(s: Seq<T>, a: spec_fn(T) -> bool, b: spec_fn(T) -> bool)
    requires
        forall|i: int| 0 <= i < s.len() ==> a(#[trigger] s[i]) == b(s[i]),
    ensures
        s.filter(a) == s.filter(b),
    decreases s.len(),
{
    reveal(Seq::filter);
    if s.len() > 0 {
        assert forall|i: int| 0 <= i < s.drop_last().len() implies a(#[trigger] s.drop_last()[i])
            == b(s.drop_last()[i]) by {
            assert(s[i] == s.drop_last()[i]);
        }
        same_filter_keeps_same(s.drop_last(), a, b);
        assert(a(s[s.len() - 1]) == b(s[s.len() - 1]));
    }
}

/// The values alike `x` of two runs one after the other.
proof fn alike_to_concat<T: Ordered>(a: Seq<T>, b: Seq<T>, x: T)
    ensures
        alike_to(a + b, x) == alike_to(a, x) + alike_to(b, x),
{
    Seq::filter_distributes_over_add(a, b, |y: T| alike(x, y));
}

/// A value that no value of `b` reaches may change places with `b`, as far as
/// values that are alike are concerned.
proof fn alike_to_swap<T: Ordered>(x: T, b: Seq<T>, probe: T)
    requires
        forall|i: int| 0 <= i < b.len() ==> !T::leq(x, #[trigger] b[i]),
    ensures
        alike_to(seq![x], probe) + alike_to(b, probe) == alike_to(b, probe) + alike_to(
            seq![x],
            probe,
        ),
{
    if alike(probe, x) {
        none_alike(b, x, probe);
    } else {
        let r = alike_to(seq![x], probe);
        if r.len() > 0 {
            broadcast use group_filter_ensures;

            filtered_is_contained(seq![x], |y: T| alike(probe, y), 0);
            assert(alike(probe, r[0]));
        }
        assert(r =~= Seq::<T>::empty());
    }
    assert(alike_to(seq![x], probe) + alike_to(b, probe) =~= alike_to(b, probe) + alike_to(
        seq![x],
        probe,
    ));
}

/// The same values in reverse order.
fn reversed<T>(v: Vec<T>) -> (r: Vec<T>)
    ensures
        r@ == v@.reverse(),
{
    let mut from: Vec<T> = v;
    let mut out: Vec<T> = Vec::new();
    let ghost all = from@;
    while from.len() > 0
        invariant
            from@.len() + out@.len() == all.len(),
            from@ =~= all.take(from@.len() as int),
            forall|i: int| 0 <= i < out@.len() ==> out@[i] == all[all.len() - 1 - i],
        decreases from@.len(),
    {
        match from.pop() {
            Some(x) => out.push(x),
            None => {},
        }
    }
    assert(out@ =~= all.reverse());
    out
}

/// Merges two ascending runs; of values that are alike, those of the first run
/// come first.
#[verifier::rlimit(40)]
fn merge<T: Ordered>(left: Vec<T>, right: Vec<T>) -> (r: Vec<T>)
    requires
        ascending(left@),
        ascending(right@),
    ensures
        stably_sorted(left@ + right@, r@),
{
    let mut a: Vec<T> = left;
    let mut b: Vec<T> = right;
    let mut tail: Vec<T> = Vec::new();
    let ghost whole = a@ + b@;
    let ghost mut suffix: Seq<T> = Seq::empty();
    proof {
        assert(tail@.reverse() =~= suffix);
        assert(whole + suffix =~= whole);
    }
    while a.len() > 0 || b.len() > 0
        invariant
            ascending(a@),
            ascending(b@),
            ascending(suffix),
            tail@.reverse() =~= suffix,
            forall|i: int, k: int|
                0 <= i < a@.len() && 0 <= k < suffix.len() ==> T::leq(
                    #[trigger] a@[i],
                    #[trigger] suffix[k],
                ),
            forall|i: int, k: int|
                0 <= i < b@.len() && 0 <= k < suffix.len() ==> T::leq(
                    #[trigger] b@[i],
                    #[trigger] suffix[k],
                ),
            (a@ + b@ + suffix).to_multiset() == whole.to_multiset(),
            forall|x: T| #[trigger] alike_to(a@ + b@ + suffix, x) == alike_to(whole, x),
        decreases a@.len() + b@.len(),
    {
        let from_left: bool = if b.len() == 0 {
            true
        } else if a.len() == 0 {
            false
        } else {
            !a[a.len() - 1].at_most(&b[b.len() - 1])
        };
        let ghost a0 = a@;
        let ghost b0 = b@;
        let ghost s0 = suffix;
        let taken: Option<T> = if from_left {
            a.pop()
        } else {
            b.pop()
        };
        match taken {
            Some(x) => {
                proof {
                    suffix = seq![x] + s0;
                    assert((a@ + b@ + suffix).to_multiset() == (a0 + b0 + s0).to_multiset()) by {
                        merge_step_multiset(a0, b0, s0, a@, b@, x);
                    }
                    if from_left {
                        assert(a0 =~= a@ + seq![x]);
                        if b0.len() > 0 {
                            assert forall|i: int| 0 <= i < b0.len() implies !T::leq(
                                x,
                                #[trigger] b0[i],
                            ) by {
                                if T::leq(x, b0[i]) {
                                    if i < b0.len() - 1 {
                                        T::leq_transitive(x, b0[i], b0[b0.len() - 1]);
                                    }
                                }
                            }
                            T::leq_total(x, b0[b0.len() - 1]);
                        }
                        assert forall|i: int| 0 <= i < b0.len() implies T::leq(
                            #[trigger] b0[i],
                            x,
                        ) by {
                            if i < b0.len() - 1 {
                                T::leq_transitive(b0[i], b0[b0.len() - 1], x);
                            }
                        }
                    } else {
                        assert(b0 =~= b@ + seq![x]);
                        assert forall|i: int| 0 <= i < a0.len() implies T::leq(
                            #[trigger] a0[i],
                            x,
                        ) by {
                            if i < a0.len() - 1 {
                                T::leq_transitive(a0[i], a0[a0.len() - 1], x);
                            }
                        }
                    }
                    assert forall|p: T| #[trigger]
                        alike_to(a@ + b@ + suffix, p) == alike_to(whole, p) by {
                        assert(alike_to(a0 + b0 + s0, p) == alike_to(whole, p));
                        merge_step_alike(a0, b0, s0, a@, b@, x, from_left, p);
                    }
                }
                tail.push(x);
                proof {
                    assert(tail@.reverse() =~= suffix);
                }
            },
            None => {},
        }
    }
    proof {
        assert(a@ + b@ + suffix =~= suffix);
    }
    reversed(tail)
}

/// Moving the taken value to the front of the suffix keeps the values.
proof fn merge_step_multiset<T>(
    a0: Seq<T>,
    b0: Seq<T>,
    s0: Seq<T>,
    a: Seq<T>,
    b: Seq<T>,
    x: T,
)
    requires
        (a0 =~= a + seq![x] && b0 == b) || (b0 =~= b + seq![x] && a0 == a),
    ensures
        (a + b + (seq![x] + s0)).to_multiset() == (a0 + b0 + s0).to_multiset(),
{
    broadcast use vstd::multiset::group_multiset_axioms;

    lemma_multiset_commutative(a + b, seq![x] + s0);
    lemma_multiset_commutative(a, b);
    lemma_multiset_commutative(seq![x], s0);
    lemma_multiset_commutative(a0 + b0, s0);
    lemma_multiset_commutative(a0, b0);
    lemma_multiset_commutative(a, seq![x]);
    lemma_multiset_commutative(b, seq![x]);
    assert((a + b + (seq![x] + s0)).to_multiset() =~= (a0 + b0 + s0).to_multiset());
}

/// Moving the taken value to the front of the suffix keeps the order of values
/// that are alike.
proof fn merge_step_alike<T: Ordered>(
    a0: Seq<T>,
    b0: Seq<T>,
    s0: Seq<T>,
    a: Seq<T>,
    b: Seq<T>,
    x: T,
    from_left: bool,
    p: T,
)
    requires
        from_left ==> a0 =~= a + seq![x] && b0 == b,
        !from_left ==> b0 =~= b + seq![x] && a0 == a,
        from_left ==> forall|i: int| 0 <= i < b0.len() ==> !T::leq(x, #[trigger] b0[i]),
    ensures
        alike_to(a + b + (seq![x] + s0), p) == alike_to(a0 + b0 + s0, p),
{
    alike_to_concat(a + b, seq![x] + s0, p);
    alike_to_concat(a, b, p);
    alike_to_concat(seq![x], s0, p);
    alike_to_concat(a0 + b0, s0, p);
    alike_to_concat(a0, b0, p);
    if from_left {
        alike_to_concat(a, seq![x], p);
        alike_to_swap(x, b, p);
        let ca = alike_to(a, p);
        let cb = alike_to(b, p);
        let cx = alike_to(seq![x], p);
        let cs = alike_to(s0, p);
        assert((ca + cb) + (cx + cs) =~= ca + (cb + cx) + cs);
        assert(ca + (cx + cb) + cs =~= ((ca + cx) + cb) + cs);
    } else {
        alike_to_concat(b, seq![x], p);
        let ca = alike_to(a, p);
        let cb = alike_to(b, p);
        let cx = alike_to(seq![x], p);
        let cs = alike_to(s0, p);
        assert((ca + cb) + (cx + cs) =~= (ca + (cb + cx)) + cs);
    }
}

/// Sorting two halves and merging them sorts the whole.
proof fn halves_make_whole<T: Ordered>(l0: Seq<T>, r0: Seq<T>, l: Seq<T>, r: Seq<T>, m: Seq<T>)
    requires
        stably_sorted(l0, l),
        stably_sorted(r0, r),
        stably_sorted(l + r, m),
    ensures
        stably_sorted(l0 + r0, m),
{
    lemma_multiset_commutative(l0, r0);
    lemma_multiset_commutative(l, r);
    assert forall|x: T| #[trigger] alike_to(m, x) == alike_to(l0 + r0, x) by {
        assert(alike_to(m, x) == alike_to(l + r, x));
        alike_to_concat(l, r, x);
        alike_to_concat(l0, r0, x);
        assert(alike_to(l, x) == alike_to(l0, x));
        assert(alike_to(r, x) == alike_to(r0, x));
    }
}

/// Sorts into ascending order; values that are alike keep their order.
pub fn sort<T: Ordered>(v: Vec<T>) -> (r: Vec<T>)
    ensures
        stably_sorted(v@, r@),
    decreases v@.len(),
{
    let mut left: Vec<T> = v;
    let total: usize = left.len();
    if total <= 1 {
        return left;
    }
    let right: Vec<T> = left.split_off(total / 2);
    assert(v@ =~= left@ + right@);
    let ghost l0 = left@;
    let ghost r0 = right@;
    let left_sorted: Vec<T> = sort(left);
    let right_sorted: Vec<T> = sort(right);
    let ghost l = left_sorted@;
    let ghost r = right_sorted@;
    let merged: Vec<T> = merge(left_sorted, right_sorted);
    proof {
        halves_make_whole(l0, r0, l, r, merged@);
    }
    merged
}

/// A sorted sequence holds as many values as the sequence it was made from.
pub proof fn sorting_keeps_length<T: Ordered>(s: Seq<T>, sorted: Seq<T>)
    requires
        stably_sorted(s, sorted),
    ensures
        sorted.len() == s.len(),
{
    s.to_multiset_ensures();
    sorted.to_multiset_ensures();
}

/// Every value of a sorted sequence comes from the sequence it was made from.
pub proof fn sorting_adds_nothing<T: Ordered>(s: Seq<T>, sorted: Seq<T>, i: int)
    requires
        stably_sorted(s, sorted),
        0 <= i < sorted.len(),
    ensures
        s.contains(sorted[i]),
{
    s.to_multiset_ensures();
    sorted.to_multiset_ensures();
    assert(sorted.contains(sorted[i]));
    assert(s.to_multiset().count(sorted[i]) > 0);
}

/// The values alike `x`, told by the last value.
proof fn alike_to_last<T: Ordered>(s: Seq<T>, x: T)
    requires
        s.len() > 0,
    ensures
        alike_to(s, x) == if alike(x, s.last()) {
            alike_to(s.drop_last(), x).push(s.last())
        } else {
            alike_to(s.drop_last(), x)
        },
{
    reveal(Seq::filter);
}

/// If an ascending sequence holds a value alike `x`, `x` may stand before its
/// last value.
proof fn alike_reaches_end<T: Ordered>(s: Seq<T>, x: T)
    requires
        ascending(s),
        alike_to(s, x).len() > 0,
    ensures
        s.len() > 0,
        T::leq(x, s.last()),
{
    broadcast use group_filter_ensures;

    let pred = |y: T| alike(x, y);
    filtered_is_contained(s, pred, 0);
    assert(pred(s.filter(pred)[0]));
    let i = choose|i: int| 0 <= i < s.len() && s[i] == s.filter(pred)[0];
    assert(T::leq(x, s[i]));
    if i < s.len() - 1 {
        assert(T::leq(s[i], s[s.len() - 1]));
        T::leq_transitive(x, s[i], s.last());
    }
}

/// Two ascending sequences with the same runs of values that are alike are the
/// same.
proof fn same_runs_same_values<T: Ordered>(a: Seq<T>, b: Seq<T>)
    requires
        ascending(a),
        ascending(b),
        forall|x: T| #[trigger] alike_to(a, x) == alike_to(b, x),
    ensures
        a == b,
    decreases a.len(),
{
    if a.len() > 0 {
        alike_to_last(a, a.last());
        T::leq_total(a.last(), a.last());
        assert(alike_to(a, a.last()) == alike_to(b, a.last()));
        alike_reaches_end(b, a.last());
    }
    if b.len() > 0 {
        alike_to_last(b, b.last());
        T::leq_total(b.last(), b.last());
        assert(alike_to(a, b.last()) == alike_to(b, b.last()));
        alike_reaches_end(a, b.last());
    }
    if a.len() > 0 {
        let x = a.last();
        alike_to_last(b, x);
        assert(alike_to(a, x).last() == a.last());
        assert(alike_to(b, x).last() == b.last());
        assert forall|y: T| #[trigger] alike_to(a.drop_last(), y) == alike_to(
            b.drop_last(),
            y,
        ) by {
            alike_to_last(a, y);
            alike_to_last(b, y);
            assert(alike_to(a, y) == alike_to(b, y));
            if alike(y, x) {
                assert(alike_to(a, y).drop_last() =~= alike_to(a.drop_last(), y));
                assert(alike_to(b, y).drop_last() =~= alike_to(b.drop_last(), y));
            }
        }
        same_runs_same_values(a.drop_last(), b.drop_last());
        assert(a =~= a.drop_last().push(x));
        assert(b =~= b.drop_last().push(x));
    } else {
        assert(a =~= b);
    }
}

/// There is only one stable sort of a sequence.
pub proof fn stable_sort_is_unique<T: Ordered>(s: Seq<T>, a: Seq<T>, b: Seq<T>)
    requires
        stably_sorted(s, a),
        stably_sorted(s, b),
    ensures
        a == b,
{
    assert forall|x: T| #[trigger] alike_to(a, x) == alike_to(b, x) by {
        assert(alike_to(a, x) == alike_to(s, x));
        assert(alike_to(b, x) == alike_to(s, x));
    }
    same_runs_same_values(a, b);
}

// ── Levels ───────────────────────────────────────────────────────────────────

impl Ordered for u16 {
    open spec fn leq(a: u16, b: u16) -> bool {
        a <= b
    }

    proof fn leq_total(a: u16, b: u16) {
    }

    proof fn leq_transitive(a: u16, b: u16, c: u16) {
    }

    fn at_most(&self, other: &u16) -> (r: bool) {
        *self <= *other
    }
}

/// Levels in ascending order.
pub open spec fn sorted_levels(levels: Seq<u16>) -> Seq<u16> {
    levels.sort_by(|a: u16, b: u16| a <= b)
}

/// `sorted_levels` holds the same levels, and in ascending order.
pub proof fn sorted_levels_ascend(levels: Seq<u16>)
    ensures
        sorted_levels(levels).len() == levels.len(),
        sorted_levels(levels).to_multiset() == levels.to_multiset(),
        forall|i: int, j: int|
            0 <= i <= j < levels.len() ==> sorted_levels(levels)[i] <= sorted_levels(levels)[j],
{
    let leq = |a: u16, b: u16| a <= b;
    levels.lemma_sort_by_ensures(leq);
    levels.to_multiset_ensures();
    sorted_levels(levels).to_multiset_ensures();
    assert forall|i: int, j: int| 0 <= i <= j < levels.len() implies sorted_levels(levels)[i]
        <= sorted_levels(levels)[j] by {
        if i < j {
            assert(leq(sorted_levels(levels)[i], sorted_levels(levels)[j]));
        }
    }
}

/// The order in which levels are listed does not matter once they are sorted.
pub proof fn sorted_levels_ignore_order(a: Seq<u16>, b: Seq<u16>)
    requires
        a.to_multiset() == b.to_multiset(),
    ensures
        sorted_levels(a) == sorted_levels(b),
{
    let leq = |x: u16, y: u16| x <= y;
    a.lemma_sort_by_ensures(leq);
    b.lemma_sort_by_ensures(leq);
    lemma_sorted_unique(sorted_levels(a), sorted_levels(b), leq);
}

/// Sorts levels into ascending order.
pub fn sort_levels(levels: Vec<u16>) -> (r: Vec<u16>)
    ensures
        r@ == sorted_levels(levels@),
{
    let r: Vec<u16> = sort(levels);
    proof {
        let leq = |a: u16, b: u16| a <= b;
        levels@.lemma_sort_by_ensures(leq);
        assert forall|i: int, j: int| 0 <= i < j < r@.len() implies leq(
            #[trigger] r@[i],
            #[trigger] r@[j],
        ) by {
            assert(u16::leq(r@[i], r@[j]));
        }
        lemma_sorted_unique(r@, sorted_levels(levels@), leq);
    }
    r
}

// ── Names ────────────────────────────────────────────────────────────────────

/// Whether `a` may stand before `b` in the order of strings: character by
/// character, each by its code point.
pub open spec fn name_leq(a: Seq<char>, b: Seq<char>) -> bool
    decreases a.len(),
{
    if a.len() == 0 {
        true
    } else if b.len() == 0 {
        false
    } else if a[0] != b[0] {
        (a[0] as int) < (b[0] as int)
    } else {
        name_leq(a.skip(1), b.skip(1))
    }
}

/// The texts of strings.
pub open spec fn texts(names: Seq<String>) -> Seq<Seq<char>> {
    names.map_values(|s: String| s@)
}

/// Names in their order.
pub open spec fn sorted_names(names: Seq<Seq<char>>) -> Seq<Seq<char>> {
    names.sort_by(|a: Seq<char>, b: Seq<char>| name_leq(a, b))
}

proof fn name_leq_total(a: Seq<char>, b: Seq<char>)
    ensures
        name_leq(a, b) || name_leq(b, a),
    decreases a.len(),
{
    if a.len() > 0 && b.len() > 0 && a[0] == b[0] {
        name_leq_total(a.skip(1), b.skip(1));
    }
}

proof fn name_leq_transitive(a: Seq<char>, b: Seq<char>, c: Seq<char>)
    requires
        name_leq(a, b),
        name_leq(b, c),
    ensures
        name_leq(a, c),
    decreases a.len(),
{
    if a.len() > 0 && b.len() > 0 && c.len() > 0 && a[0] == b[0] && b[0] == c[0] {
        name_leq_transitive(a.skip(1), b.skip(1), c.skip(1));
    }
}

proof fn name_leq_antisymmetric(a: Seq<char>, b: Seq<char>)
    requires
        name_leq(a, b),
        name_leq(b, a),
    ensures
        a == b,
    decreases a.len(),
{
    if a.len() > 0 && b.len() > 0 {
        name_leq_antisymmetric(a.skip(1), b.skip(1));
        assert(a =~= seq![a[0]] + a.skip(1));
        assert(b =~= seq![b[0]] + b.skip(1));
    } else {
        assert(a =~= b);
    }
}

/// The order of names is a total order.
pub proof fn name_order_is_total()
    ensures
        total_ordering(|a: Seq<char>, b: Seq<char>| name_leq(a, b)),
{
    let leq = |a: Seq<char>, b: Seq<char>| name_leq(a, b);
    assert forall|a: Seq<char>| #[trigger] leq(a, a) by {
        name_leq_total(a, a);
    }
    assert forall|a: Seq<char>, b: Seq<char>| #[trigger] leq(a, b) && #[trigger] leq(
        b,
        a,
    ) implies a == b by {
        name_leq_antisymmetric(a, b);
    }
    assert forall|a: Seq<char>, b: Seq<char>, c: Seq<char>| #[trigger]
        leq(a, b) && #[trigger] leq(b, c) implies leq(a, c) by {
        name_leq_transitive(a, b, c);
    }
    assert forall|a: Seq<char>, b: Seq<char>| #[trigger] leq(a, b) || leq(b, a) by {
        name_leq_total(a, b);
    }
}

/// The order in which names are listed does not matter once they are sorted.
pub proof fn sorted_names_ignore_order(a: Seq<Seq<char>>, b: Seq<Seq<char>>)
    requires
        a.to_multiset() == b.to_multiset(),
    ensures
        sorted_names(a) == sorted_names(b),
{
    let leq = |x: Seq<char>, y: Seq<char>| name_leq(x, y);
    name_order_is_total();
    a.lemma_sort_by_ensures(leq);
    b.lemma_sort_by_ensures(leq);
    lemma_sorted_unique(sorted_names(a), sorted_names(b), leq);
}

/// Sorted names are the same names, in ascending order.
pub proof fn sorted_names_hold_the_names(names: Seq<Seq<char>>)
    ensures
        sorted_names(names).to_multiset() == names.to_multiset(),
        sorted_names(names).len() == names.len(),
        forall|i: int, j: int|
            0 <= i < j < names.len() ==> name_leq(
                #[trigger] sorted_names(names)[i],
                #[trigger] sorted_names(names)[j],
            ),
{
    let leq = |a: Seq<char>, b: Seq<char>| name_leq(a, b);
    name_order_is_total();
    names.lemma_sort_by_ensures(leq);
    names.to_multiset_ensures();
    sorted_names(names).to_multiset_ensures();
    assert forall|i: int, j: int| 0 <= i < j < names.len() implies name_leq(
        #[trigger] sorted_names(names)[i],
        #[trigger] sorted_names(names)[j],
    ) by {
        assert(leq(sorted_names(names)[i], sorted_names(names)[j]));
    }
}

/// Two rosters that are the same once sorted hold the same names.
pub proof fn same_sorted_names_same_names(a: Seq<Seq<char>>, b: Seq<Seq<char>>)
    requires
        sorted_names(a) == sorted_names(b),
    ensures
        a.to_multiset() == b.to_multiset(),
{
    let leq = |x: Seq<char>, y: Seq<char>| name_leq(x, y);
    name_order_is_total();
    a.lemma_sort_by_ensures(leq);
    b.lemma_sort_by_ensures(leq);
}

/// The code point of a character.
fn code_point(c: char) -> (r: u32)
    ensures
        r as int == c as int,
{
    c as u32
}

/// Decides the order of two names given as characters.
fn name_at_most(a: &Vec<char>, b: &Vec<char>) -> (r: bool)
    ensures
        r == name_leq(a@, b@),
{
    let mut i: usize = 0;
    assert(a@.skip(0) =~= a@);
    assert(b@.skip(0) =~= b@);
    while i < a.len() && i < b.len()
        invariant
            i <= a@.len(),
            i <= b@.len(),
            name_leq(a@, b@) == name_leq(a@.skip(i as int), b@.skip(i as int)),
        decreases a@.len() - i,
    {
        let x: char = a[i];
        let y: char = b[i];
        if x != y {
            return code_point(x) < code_point(y);
        }
        assert(a@.skip(i as int).skip(1) =~= a@.skip(i + 1));
        assert(b@.skip(i as int).skip(1) =~= b@.skip(i + 1));
        i = i + 1;
    }
    i == a.len()
}

impl Ordered for String {
    open spec fn leq(a: String, b: String) -> bool {
        name_leq(a@, b@)
    }

    proof fn leq_total(a: String, b: String) {
        name_leq_total(a@, b@);
    }

    proof fn leq_transitive(a: String, b: String, c: String) {
        name_leq_transitive(a@, b@, c@);
    }

    fn at_most(&self, other: &String) -> (r: bool) {
        name_at_most(&chars_of(self.as_str()), &chars_of(other.as_str()))
    }
}

/// The same strings in another order have the same texts.
proof fn texts_of_same_strings(a: Seq<String>, b: Seq<String>)
    requires
        a.to_multiset() == b.to_multiset(),
    ensures
        texts(a).to_multiset() == texts(b).to_multiset(),
    decreases a.len(),
{
    broadcast use vstd::multiset::group_multiset_axioms;
    broadcast use group_to_multiset_ensures;

    a.to_multiset_ensures();
    b.to_multiset_ensures();
    assert(a.len() == b.len());
    if a.len() == 0 {
        assert(a =~= b);
    } else {
        let x = a.last();
        assert(a.to_multiset().contains(x));
        assert(b.to_multiset().contains(x));
        let k = b.index_of(x);
        let b1 = b.remove(k);
        assert(b1.to_multiset() =~= b.to_multiset().remove(x));
        assert(a.drop_last().push(x) =~= a);
        assert(a.to_multiset() =~= a.drop_last().to_multiset().insert(x));
        assert(a.drop_last().to_multiset() =~= b1.to_multiset());
        texts_of_same_strings(a.drop_last(), b1);
        assert(texts(a) =~= texts(a.drop_last()).push(x@));
        assert(texts(b1) =~= texts(b).remove(k));
        assert(texts(b)[k] == x@);
        assert(texts(b).to_multiset() =~= texts(b1).to_multiset().insert(x@));
    }
}

/// Sorts names.
pub fn sort_names(names: Vec<String>) -> (r: Vec<String>)
    ensures
        texts(r@) == sorted_names(texts(names@)),
{
    let r: Vec<String> = sort(names);
    proof {
        let leq = |a: Seq<char>, b: Seq<char>| name_leq(a, b);
        name_order_is_total();
        texts_of_same_strings(r@, names@);
        texts(names@).lemma_sort_by_ensures(leq);
        assert forall|i: int, j: int| 0 <= i < j < texts(r@).len() implies leq(
            #[trigger] texts(r@)[i],
            #[trigger] texts(r@)[j],
        ) by {
            assert(String::leq(r@[i], r@[j]));
        }
        lemma_sorted_unique(texts(r@), sorted_names(texts(names@)), leq);
    }
    r
}

/// Whether two lists of names are the same, name by name.
pub fn same_names(a: &Vec<String>, b: &Vec<String>) -> (r: bool)
    ensures
        r == (texts(a@) == texts(b@)),
{
    if a.len() != b.len() {
        assert(texts(a@).len() != texts(b@).len());
        return false;
    }
    let mut i: usize = 0;
    while i < a.len()
        invariant
            i <= a@.len(),
            a@.len() == b@.len(),
            forall|k: int| 0 <= k < i ==> a@[k]@ == b@[k]@,
        decreases a@.len() - i,
    {
        if a[i] != b[i] {
            assert(texts(a@)[i as int] != texts(b@)[i as int]);
            return false;
        }
        i = i + 1;
    }
    assert(texts(a@) =~= texts(b@));
    true
}

} // verus!
