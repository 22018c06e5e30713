//! Sorting by an order that is proved to be one.
use vstd::multiset::Multiset;
use vstd::prelude::*;

verus! {

/// A type whose values can be put in order.
pub trait Ordered: View + Sized {
    /// Whether `a` may stand in front of `b`.
    spec fn not_after(a: Self::V, b: Self::V) -> bool;

    /// Any two values can be put in order.
    proof fn lemma_total(a: Self::V, b: Self::V)
        ensures
            Self::not_after(a, b) || Self::not_after(b, a),
    ;

    /// The order is transitive.
    proof fn lemma_transitive(a: Self::V, b: Self::V, c: Self::V)
        requires
            Self::not_after(a, b),
            Self::not_after(b, c),
        ensures
            Self::not_after(a, c),
    ;

    /// Whether this value may stand in front of `other`.
    fn is_not_after(&self, other: &Self) -> (result: bool)
        ensures
            result == Self::not_after(self@, other@),
    ;
}

/// The views of some values.
pub open spec fn views_of<T: View>(items: Seq<T>) -> Seq<T::V> {
    items.map_values(|item: T| item@)
}

/// Whether each item may stand in front of all that follow it.
pub open spec fn in_order<T: Ordered>(items: Seq<T::V>) -> bool {
    forall|i: int, j: int|
        0 <= i < j < items.len() ==> T::not_after(#[trigger] items[i], #[trigger] items[j])
}

/// Puts one more item into a list that is in order.
fn place<T: Ordered>(items: &mut Vec<T>, item: T)
    requires
        in_order::<T>(views_of(old(items)@)),
    ensures
        in_order::<T>(views_of(final(items)@)),
        views_of(final(items)@).to_multiset() == views_of(old(items)@).to_multiset().insert(item@),
{
    let ghost before = views_of(items@);
    let ghost value = item@;
    let mut at: usize = items.len();
    while at > 0 && !items[at - 1].is_not_after(&item)
        invariant
            at <= items.len(),
            before == views_of(items@),
            value == item@,
            in_order::<T>(before),
            forall|j: int| at <= j < items.len() ==> T::not_after(value, #[trigger] before[j]),
        decreases at,
    {
        proof {
            T::lemma_total(before[at - 1], value);
        }
        at = at - 1;
    }
    items.insert(at, item);
    let ghost after = views_of(items@);
    proof {
        assert(after =~= before.insert(at as int, value));
        vstd::seq_lib::to_multiset_insert(before, at as int, value);
        if at > 0 {
            assert forall|j: int| 0 <= j < at implies T::not_after(#[trigger] before[j], value) by {
                if j < at - 1 {
                    T::lemma_transitive(before[j], before[at - 1], value);
                }
            }
        }
        assert forall|i: int, j: int| 0 <= i < j < after.len() implies T::not_after(
            #[trigger] after[i],
            #[trigger] after[j],
        ) by {
            let k: int = if i < at {
                i
            } else {
                i - 1
            };
            let l: int = if j < at {
                j
            } else {
                j - 1
            };
            if i == at {
                assert(after[j] == before[l]);
            } else if j == at {
                assert(after[i] == before[k]);
            } else {
                assert(after[i] == before[k]);
                assert(after[j] == before[l]);
                assert(T::not_after(before[k], before[l]));
            }
        }
    }
}

/// The same items, in order.
pub fn sort<T: Ordered>(items: Vec<T>) -> (sorted: Vec<T>)
    ensures
        in_order::<T>(views_of(sorted@)),
        views_of(sorted@).to_multiset() == views_of(items@).to_multiset(),
{
    let mut rest = items;
    let mut sorted: Vec<T> = Vec::new();
    proof {
        assert(views_of(sorted@) =~= Seq::empty());
        broadcast use vstd::seq_lib::group_to_multiset_ensures;

        assert(views_of(sorted@).to_multiset() =~= Multiset::empty());
    }
    while rest.len() > 0
        invariant
            in_order::<T>(views_of(sorted@)),
            views_of(rest@).to_multiset().add(views_of(sorted@).to_multiset()) == views_of(
                items@,
            ).to_multiset(),
        decreases rest.len(),
    {
        let ghost longer = rest@;
        let ghost before = views_of(sorted@);
        if let Some(item) = rest.pop() {
            let ghost value = item@;
            place(&mut sorted, item);
            proof {
                assert(views_of(longer) =~= views_of(rest@).push(value));
                vstd::seq_lib::to_multiset_build(views_of(rest@), value);
                assert(views_of(rest@).to_multiset().add(before.to_multiset().insert(value))
                    =~= views_of(rest@).to_multiset().insert(value).add(before.to_multiset()));
            }
        }
    }
    proof {
        assert(views_of(rest@) =~= Seq::empty());
        broadcast use vstd::seq_lib::group_to_multiset_ensures;

        assert(views_of(rest@).to_multiset() =~= Multiset::empty());
        assert(views_of(sorted@).to_multiset() =~= views_of(items@).to_multiset());
    }
    sorted
}

/// Where the order tells any two different values apart, two lists of the same
/// items, both in order, are the same list.
pub proof fn law_order_is_unique<T: Ordered>(a: Seq<T::V>, b: Seq<T::V>)
    requires
        in_order::<T>(a),
        in_order::<T>(b),
        a.to_multiset() == b.to_multiset(),
        forall|x: T::V, y: T::V| #[trigger]
            T::not_after(x, y) && #[trigger] T::not_after(y, x) ==> x == y,
    ensures
        a == b,
    decreases a.len(),
{
    broadcast use vstd::seq_lib::group_to_multiset_ensures;

    assert(a.len() == a.to_multiset().len());
    assert(b.len() == b.to_multiset().len());
    if a.len() == 0 {
        assert(a =~= b);
    } else {
        assert(a.contains(a[0]));
        assert(a.to_multiset().count(a[0]) > 0);
        assert(b.contains(a[0]));
        assert(b.contains(b[0]));
        assert(b.to_multiset().count(b[0]) > 0);
        assert(a.contains(b[0]));
        let k = b.index_of(a[0]);
        let m = a.index_of(b[0]);
        T::lemma_total(a[0], a[0]);
        T::lemma_total(b[0], b[0]);
        assert(T::not_after(a[0], a[m]));
        assert(T::not_after(b[0], b[k]));
        assert(a[0] == b[0]);
        vstd::seq_lib::to_multiset_remove(a, 0);
        vstd::seq_lib::to_multiset_remove(b, 0);
        law_order_is_unique::<T>(a.remove(0), b.remove(0));
        assert(a =~= seq![a[0]] + a.remove(0));
        assert(b =~= seq![b[0]] + b.remove(0));
    }
}

/// The views of some values are as many, each at the place of its value.
pub proof fn law_views_keep_places<T: View>(items: Seq<T>, i: int)
    ensures
        views_of(items).len() == items.len(),
        0 <= i < items.len() ==> views_of(items)[i] == items[i]@,
{
}

/// In a list that is in order, any two items may stand as they do, however far apart
/// they are.
pub proof fn law_in_order_at_any_distance<T: Ordered>(items: Seq<T::V>, i: int, j: int)
    requires
        in_order::<T>(items),
        0 <= i < j < items.len(),
    ensures
        T::not_after(items[i], items[j]),
{
}

} // verus!
