//! Texts in dictionary order by character, and a stable sort for anything
//! with a ranking.

use vstd::prelude::*;
use vstd::set_lib::{lemma_int_range, lemma_set_subset_finite, lemma_subset_equality, set_int_range};

verus! {

/// `a` stands strictly before `b` in dictionary order, characters being
/// ordered by their code.
pub open spec fn text_before(a: Seq<char>, b: Seq<char>) -> bool
    decreases a.len(),
{
    if b.len() == 0 {
        false
    } else if a.len() == 0 {
        true
    } else if a[0] != b[0] {
        a[0] < b[0]
    } else {
        text_before(a.drop_first(), b.drop_first())
    }
}

/// No text stands before itself.
pub proof fn lemma_text_before_irreflexive(a: Seq<char>)
    ensures
        !text_before(a, a),
    decreases a.len(),
{
    if a.len() > 0 {
        lemma_text_before_irreflexive(a.drop_first());
    }
}

/// Of two different texts exactly one stands before the other.
pub proof fn lemma_text_before_total(a: Seq<char>, b: Seq<char>)
    ensures
        a != b ==> (text_before(a, b) <==> !text_before(b, a)),
        a == b ==> !text_before(a, b) && !text_before(b, a),
    decreases a.len(),
{
    if a == b {
        lemma_text_before_irreflexive(a);
    } else if a.len() > 0 && b.len() > 0 && a[0] == b[0] {
        lemma_text_before_total(a.drop_first(), b.drop_first());
        if a.drop_first() == b.drop_first() {
            assert(a =~= seq![a[0]] + a.drop_first());
            assert(b =~= seq![b[0]] + b.drop_first());
        }
    } else if a.len() == 0 && b.len() == 0 {
        assert(a =~= b);
    }
}

/// Standing before is transitive.
pub proof fn lemma_text_before_transitive(a: Seq<char>, b: Seq<char>, c: Seq<char>)
    requires
        text_before(a, b),
        text_before(b, c),
    ensures
        text_before(a, c),
    decreases a.len(),
{
    if a.len() > 0 && b.len() > 0 && c.len() > 0 && a[0] == b[0] && b[0] == c[0] {
        lemma_text_before_transitive(a.drop_first(), b.drop_first(), c.drop_first());
    }
}

/// If `a` does not stand before `b`, nor `b` before `c`, then `a` does not
/// stand before `c`.
pub proof fn lemma_text_not_before_chain(a: Seq<char>, b: Seq<char>, c: Seq<char>)
    requires
        !text_before(a, b),
        !text_before(b, c),
    ensures
        !text_before(a, c),
{
    lemma_text_before_total(a, b);
    lemma_text_before_total(b, c);
    lemma_text_before_total(a, c);
    if text_before(a, c) {
        if a == b {
        } else if b == c {
        } else {
            lemma_text_before_transitive(c, b, a);
        }
    }
}

/// Whether `a` stands strictly before `b` in dictionary order.
pub fn text_precedes(a: &Vec<char>, b: &Vec<char>) -> (r: bool)
    ensures
        r == text_before(a@, b@),
{
    let mut i: usize = 0;
    assert(a@.skip(0) == a@ && b@.skip(0) == b@);
    while i < a.len() && i < b.len() && a[i] == b[i]
        invariant
            i <= a.len(),
            i <= b.len(),
            text_before(a@, b@) == text_before(a@.skip(i as int), b@.skip(i as int)),
        decreases a.len() - i,
    {
        proof {
            let x = a@.skip(i as int);
            let y = b@.skip(i as int);
            assert(x[0] == a@[i as int] && y[0] == b@[i as int]);
            assert(x.drop_first() == a@.skip(i + 1));
            assert(y.drop_first() == b@.skip(i + 1));
        }
        i += 1;
    }
    proof {
        let x = a@.skip(i as int);
        let y = b@.skip(i as int);
        if i < a.len() {
            assert(x[0] == a@[i as int]);
        }
        if i < b.len() {
            assert(y[0] == b@[i as int]);
        }
    }
    if i >= b.len() {
        false
    } else if i >= a.len() {
        true
    } else {
        a[i] < b[i]
    }
}

/// Things with a ranking: a strict order on what they hold, in which some
/// things may tie.
pub trait Ranked: View + Sized {
    /// `a` ranks strictly before `b`.
    spec fn before(a: Self::V, b: Self::V) -> bool;

    /// Whether `self` ranks strictly before `other`.
    fn precedes(&self, other: &Self) -> (r: bool)
        ensures
            r == Self::before(self@, other@),
    ;

    /// No two things rank before each other.
    proof fn lemma_asymmetric(a: Self::V, b: Self::V)
        ensures
            Self::before(a, b) ==> !Self::before(b, a),
    ;

    /// If `a` does not rank before `b`, nor `b` before `c`, then `a` does
    /// not rank before `c`.
    proof fn lemma_not_before_chain(a: Self::V, b: Self::V, c: Self::V)
        requires
            !Self::before(a, b),
            !Self::before(b, c),
        ensures
            !Self::before(a, c),
    ;
}

/// What the elements of a list hold.
pub open spec fn views_of<T: View>(items: Seq<T>) -> Seq<T::V> {
    Seq::new(items.len(), |i: int| items[i]@)
}

/// `order` lists positions of `items` as a stable sort arranges them: no
/// position twice, no item after one that it ranks before, and items that
/// tie in the order in which they stand in `items`.
pub open spec fn is_stable_partial_order<T: Ranked>(items: Seq<T::V>, order: Seq<usize>) -> bool {
    &&& forall|k: int| 0 <= k < order.len() ==> (#[trigger] order[k]) < items.len()
    &&& forall|k: int, l: int|
        #![trigger order[k], order[l]]
        0 <= k < l < order.len() ==> {
            &&& order[k] != order[l]
            &&& !T::before(items[order[l] as int], items[order[k] as int])
            &&& !T::before(items[order[k] as int], items[order[l] as int]) ==> order[k] < order[l]
        }
}

/// `order` lists every position of `items` once, as a stable sort arranges
/// them.
pub open spec fn is_stable_order<T: Ranked>(items: Seq<T::V>, order: Seq<usize>) -> bool {
    &&& order.len() == items.len()
    &&& is_stable_partial_order::<T>(items, order)
}

/// The items at the positions that `order` lists, in that order.
pub open spec fn arranged<V>(items: Seq<V>, order: Seq<usize>) -> Seq<V> {
    Seq::new(order.len(), |k: int| items[order[k] as int])
}

/// `sorted` is `items` stably sorted: the same items, none after one that
/// it ranks before, and items that tie in the order in which they stood.
pub open spec fn is_stably_sorted<T: Ranked>(items: Seq<T::V>, sorted: Seq<T::V>) -> bool {
    exists|order: Seq<usize>|
        #[trigger] is_stable_order::<T>(items, order) && sorted == arranged(items, order)
}

/// The positions of `items` in stably sorted order.
pub fn stable_order<T: Ranked>(items: &Vec<T>) -> (order: Vec<usize>)
    ensures
        is_stable_order::<T>(views_of(items@), order@),
{
    let ghost held = views_of(items@);
    let mut order: Vec<usize> = Vec::new();
    let mut i: usize = 0;
    while i < items.len()
        invariant
            i <= items.len(),
            held == views_of(items@),
            order.len() == i,
            is_stable_partial_order::<T>(held, order@),
            forall|k: int| 0 <= k < order.len() ==> (#[trigger] order[k]) < i,
        decreases items.len() - i,
    {
        let mut j: usize = order.len();
        while j > 0 && items[i].precedes(&items[order[j - 1]])
            invariant
                j <= order.len(),
                held == views_of(items@),
                order.len() == i,
                i < items.len(),
                forall|k: int| 0 <= k < order.len() ==> (#[trigger] order[k]) < i,
                forall|q: int|
                    j <= q < order.len() ==> T::before(
                        held[i as int],
                        held[(#[trigger] order[q]) as int],
                    ),
            decreases j,
        {
            j -= 1;
        }
        let ghost old_order = order@;
        order.insert(j, i);
        proof {
            let new_order = order@;
            let x = held[i as int];
            assert(new_order.len() == old_order.len() + 1);
            assert forall|k: int| 0 <= k < new_order.len() implies (#[trigger] new_order[k]) < i
                + 1 by {
                if k < j {
                    assert(new_order[k] == old_order[k]);
                } else if k > j {
                    assert(new_order[k] == old_order[k - 1]);
                }
            }
            assert forall|p: int| 0 <= p < j implies !T::before(
                x,
                held[(#[trigger] old_order[p]) as int],
            ) by {
                if p < j - 1 {
                    let last = held[old_order[j - 1] as int];
                    let here = held[old_order[p] as int];
                    assert(!T::before(last, here));
                    T::lemma_not_before_chain(x, last, here);
                }
            }
            assert forall|k: int, l: int|
                #![trigger new_order[k], new_order[l]]
                0 <= k < l < new_order.len() implies {
                &&& new_order[k] != new_order[l]
                &&& !T::before(held[new_order[l] as int], held[new_order[k] as int])
                &&& !T::before(held[new_order[k] as int], held[new_order[l] as int])
                    ==> new_order[k] < new_order[l]
            } by {
                if l < j {
                    assert(new_order[k] == old_order[k] && new_order[l] == old_order[l]);
                } else if l == j {
                    assert(new_order[k] == old_order[k] && new_order[l] == i);
                    assert(old_order[k] < i);
                } else if k < j {
                    assert(new_order[k] == old_order[k] && new_order[l] == old_order[l - 1]);
                } else if k == j {
                    assert(new_order[k] == i && new_order[l] == old_order[l - 1]);
                    assert(old_order[l - 1] < i);
                    let there = held[old_order[l - 1] as int];
                    assert(T::before(x, there));
                    T::lemma_asymmetric(x, there);
                } else {
                    assert(new_order[k] == old_order[k - 1] && new_order[l] == old_order[l - 1]);
                }
            }
        }
        i += 1;
    }
    order
}

/// Position `p` stands before position `q`: its item ranks before the
/// other, or the two tie and `p` is the earlier position.
pub open spec fn stands_before<T: Ranked>(items: Seq<T::V>, p: int, q: int) -> bool {
    T::before(items[p], items[q]) || (!T::before(items[q], items[p]) && p < q)
}

/// A stable order lists every position.
pub proof fn lemma_stable_order_lists_all<T: Ranked>(items: Seq<T::V>, order: Seq<usize>, p: int)
    requires
        is_stable_order::<T>(items, order),
        0 <= p < items.len(),
    ensures
        exists|k: int| 0 <= k < order.len() && #[trigger] order[k] == p,
{
    let n = items.len() as int;
    let listed = Seq::new(order.len(), |k: int| order[k] as int);
    assert forall|i: int, j: int|
        0 <= i < listed.len() && 0 <= j < listed.len() && i != j implies listed[i]
        != listed[j] by {
        if i < j {
            assert(order[i] != order[j]);
        } else {
            assert(order[j] != order[i]);
        }
    }
    listed.unique_seq_to_set();
    lemma_int_range(0, n);
    assert forall|x: int| listed.to_set().contains(x) implies set_int_range(0, n).contains(x) by {
        let k = choose|k: int| 0 <= k < listed.len() && listed[k] == x;
        assert(order[k] < items.len());
    }
    lemma_set_subset_finite(set_int_range(0, n), listed.to_set());
    lemma_subset_equality(listed.to_set(), set_int_range(0, n));
    assert(set_int_range(0, n).contains(p));
    assert(listed.to_set().contains(p));
    let k = choose|k: int| 0 <= k < listed.len() && listed[k] == p;
    assert(order[k] == p);
}

proof fn lemma_stable_orders_agree_up_to<T: Ranked>(
    items: Seq<T::V>,
    a: Seq<usize>,
    b: Seq<usize>,
    k: int,
)
    requires
        is_stable_order::<T>(items, a),
        is_stable_order::<T>(items, b),
        0 <= k <= items.len(),
    ensures
        forall|j: int| 0 <= j < k ==> a[j] == b[j],
    decreases k,
{
    if k > 0 {
        lemma_stable_orders_agree_up_to::<T>(items, a, b, k - 1);
        let p = a[k - 1];
        let q = b[k - 1];
        if p != q {
            lemma_stable_order_lists_all::<T>(items, b, p as int);
            let m = choose|m: int| 0 <= m < b.len() && #[trigger] b[m] == p;
            if m < k - 1 {
                assert(a[m] != a[k - 1]);
            }
            assert(b[k - 1] != b[m]);
            assert(stands_before::<T>(items, q as int, p as int));
            lemma_stable_order_lists_all::<T>(items, a, q as int);
            let w = choose|w: int| 0 <= w < a.len() && #[trigger] a[w] == q;
            if w < k - 1 {
                assert(b[w] != b[k - 1]);
            }
            assert(a[k - 1] != a[w]);
            assert(stands_before::<T>(items, p as int, q as int));
            T::lemma_asymmetric(items[p as int], items[q as int]);
            T::lemma_asymmetric(items[q as int], items[p as int]);
        }
    }
}

/// There is only one stable order of given items, and so only one way to
/// sort them stably.
pub proof fn lemma_stable_order_unique<T: Ranked>(
    items: Seq<T::V>,
    sorted: Seq<T::V>,
    other: Seq<T::V>,
)
    requires
        is_stably_sorted::<T>(items, sorted),
        is_stably_sorted::<T>(items, other),
    ensures
        sorted == other,
{
    let a = choose|order: Seq<usize>|
        #[trigger] is_stable_order::<T>(items, order) && sorted == arranged(items, order);
    let b = choose|order: Seq<usize>|
        #[trigger] is_stable_order::<T>(items, order) && other == arranged(items, order);
    lemma_stable_orders_agree_up_to::<T>(items, a, b, items.len() as int);
    assert(a =~= b);
}

} // verus!
