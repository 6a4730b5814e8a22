//! Putting what was done side by side back into one order.

use vstd::prelude::*;

verus! {

/// What tells whether an item stands at place `key`.
pub open spec fn stands_at<T>(key: usize) -> spec_fn((usize, T)) -> bool {
    |item: (usize, T)| item.0 == key
}

/// The items of `items` that stand at place `key`, in their order.
pub open spec fn at_place<T>(items: Seq<(usize, T)>, key: usize) -> Seq<(usize, T)> {
    items.filter(stands_at(key))
}

/// Whether no item stands behind one of a higher place.
pub open spec fn in_order<T>(items: Seq<(usize, T)>) -> bool {
    forall|i: int, j: int| 0 <= i <= j < items.len() ==> items[i].0 <= items[j].0
}

/// Whether `sorted` is `items`, in the order of their places. Items of one place
/// keep the order that they had.
pub open spec fn sorted_by_place<T>(items: Seq<(usize, T)>, sorted: Seq<(usize, T)>) -> bool {
    &&& in_order(sorted)
    &&& forall|key: usize| at_place(sorted, key) == #[trigger] at_place(items, key)
}

/// Sorts `items` by their places. Items of one place keep their order.
pub fn sort_by_place<T>(items: Vec<(usize, T)>) -> (sorted: Vec<(usize, T)>)
    ensures
        sorted_by_place(items@, sorted@),
{
    let ghost all = items@;
    let mut left = items;
    let mut sorted: Vec<(usize, T)> = Vec::new();
    assert(all.skip(all.len() as int) =~= Seq::empty());
    loop
        invariant
            left@.len() <= all.len(),
            left@ == all.take(left@.len() as int),
            sorted_by_place(all.skip(left@.len() as int), sorted@),
        ensures
            sorted_by_place(all, sorted@),
        decreases left@.len(),
    {
        let ghost n = left@.len() as int;
        match left.pop() {
            None => {
                assert(all.skip(0) =~= all);
                break;
            },
            Some(item) => {
                let mut at: usize = 0;
                while at < sorted.len() && sorted[at].0 < item.0
                    invariant
                        at <= sorted@.len(),
                        forall|i: int| 0 <= i < at ==> (#[trigger] sorted@[i]).0 < item.0,
                    decreases sorted@.len() - at,
                {
                    at = at + 1;
                }
                proof {
                    assert(all.skip(n - 1) =~= seq![item] + all.skip(n));
                    lemma_insert(all.skip(n), sorted@, item, at as int);
                }
                sorted.insert(at, item);
                assert(left@ =~= all.take(n - 1));
            },
        }
    }
    sorted
}

/// An item that stood in front of all others goes in front of those of its place.
proof fn lemma_insert<T>(
    items: Seq<(usize, T)>,
    sorted: Seq<(usize, T)>,
    item: (usize, T),
    at: int,
)
    requires
        sorted_by_place(items, sorted),
        0 <= at <= sorted.len(),
        forall|i: int| 0 <= i < at ==> (#[trigger] sorted[i]).0 < item.0,
        at < sorted.len() ==> item.0 <= sorted[at].0,
    ensures
        sorted_by_place(seq![item] + items, sorted.insert(at, item)),
{
    let longer = sorted.insert(at, item);
    let front = sorted.take(at);
    let back = sorted.skip(at);
    assert(in_order(longer));
    assert forall|key: usize| at_place(longer, key) == #[trigger] at_place(
        seq![item] + items,
        key,
    ) by {
        let here = stands_at::<T>(key);
        assert(longer =~= front + (seq![item] + back));
        assert(sorted =~= front + back);
        Seq::filter_distributes_over_add(front, seq![item] + back, here);
        Seq::filter_distributes_over_add(seq![item], back, here);
        Seq::filter_distributes_over_add(front, back, here);
        Seq::filter_distributes_over_add(seq![item], items, here);
        assert(at_place(sorted, key) == at_place(items, key));
        if key == item.0 {
            assert forall|i: int| 0 <= i < front.len() implies !here(#[trigger] front[i]) by {
                assert(front[i] == sorted[i]);
            }
            lemma_none_chosen(front, here);
            assert(at_place(longer, key) =~= at_place(seq![item], key) + at_place(sorted, key));
        } else {
            lemma_none_chosen(seq![item], here);
            assert(at_place(longer, key) =~= at_place(sorted, key));
            assert(at_place(seq![item] + items, key) =~= at_place(items, key));
        }
    }
}

/// Where no item is wanted, none is chosen.
pub(crate) proof fn lemma_none_chosen<A>(items: Seq<A>, wanted: spec_fn(A) -> bool)
    requires
        forall|i: int| 0 <= i < items.len() ==> !wanted(#[trigger] items[i]),
    ensures
        items.filter(wanted) == Seq::<A>::empty(),
    decreases items.len(),
{
    reveal(Seq::filter);
    if items.len() > 0 {
        lemma_none_chosen(items.drop_last(), wanted);
    }
}

/// An item stands among those of its place as often as among all.
proof fn lemma_count_at_place<T>(items: Seq<(usize, T)>, item: (usize, T))
    ensures
        at_place(items, item.0).to_multiset().count(item) == items.to_multiset().count(item),
    decreases items.len(),
{
    if items.len() == 0 {
        lemma_none_chosen(items, stands_at::<T>(item.0));
        assert(at_place(items, item.0) =~= items);
    } else {
        let head = seq![items[0]];
        let rest = items.drop_first();
        lemma_count_at_place(rest, item);
        lemma_at_place_first(items, item.0);
        assert(items =~= head + rest);
        vstd::seq_lib::lemma_multiset_commutative(head, rest);
        vstd::seq_lib::lemma_multiset_commutative(head, at_place(rest, item.0));
        assert(head =~= Seq::<(usize, T)>::empty().push(items[0]));
        Seq::<(usize, T)>::empty().to_multiset_ensures();
    }
}

/// Sorting loses no item and adds none.
pub proof fn sorting_keeps_every_item<T>(items: Seq<(usize, T)>, result: Seq<(usize, T)>)
    requires
        sorted_by_place(items, result),
    ensures
        result.to_multiset() == items.to_multiset(),
        result.len() == items.len(),
{
    assert forall|item: (usize, T)|
        result.to_multiset().count(item) == items.to_multiset().count(item) by {
        lemma_count_at_place(items, item);
        lemma_count_at_place(result, item);
        assert(at_place(items, item.0) == at_place(result, item.0));
    }
    assert(result.to_multiset() =~= items.to_multiset());
    items.to_multiset_ensures();
    result.to_multiset_ensures();
}

/// `items` in the order of their places. Items of one place keep their order.
pub open spec fn sorted<T>(items: Seq<(usize, T)>) -> Seq<(usize, T)> {
    choose|sorted: Seq<(usize, T)>| sorted_by_place(items, sorted)
}

/// The first item is the first of its place, and the others of a place come from
/// behind it.
proof fn lemma_at_place_first<T>(items: Seq<(usize, T)>, key: usize)
    requires
        items.len() > 0,
    ensures
        at_place(items, key) == if items[0].0 == key {
            seq![items[0]] + at_place(items.drop_first(), key)
        } else {
            at_place(items.drop_first(), key)
        },
{
    let here = stands_at::<T>(key);
    let head = seq![items[0]];
    assert(items =~= head + items.drop_first());
    Seq::filter_distributes_over_add(head, items.drop_first(), here);
    if items[0].0 == key {
        assert(head =~= Seq::<(usize, T)>::empty().push(items[0]));
        Seq::<(usize, T)>::empty().lemma_filter_push(items[0], here);
        lemma_none_chosen(Seq::<(usize, T)>::empty(), here);
        assert(head.filter(here) =~= head);
    } else {
        lemma_none_chosen(head, here);
        assert(at_place(items, key) =~= at_place(items.drop_first(), key));
    }
}

/// A place that has an item is the place of one of the items.
proof fn lemma_at_place_member<T>(items: Seq<(usize, T)>, key: usize)
    requires
        at_place(items, key).len() > 0,
    ensures
        exists|i: int| 0 <= i < items.len() && (#[trigger] items[i]).0 == key,
{
    if forall|i: int| 0 <= i < items.len() ==> (#[trigger] items[i]).0 != key {
        lemma_none_chosen(items, stands_at::<T>(key));
    }
}

/// Two lists that are in order and agree on every place are the same.
proof fn lemma_one_order<T>(a: Seq<(usize, T)>, b: Seq<(usize, T)>)
    requires
        in_order(a),
        in_order(b),
        forall|key: usize| #[trigger] at_place(a, key) == at_place(b, key),
    ensures
        a == b,
    decreases a.len(),
{
    if a.len() == 0 {
        if b.len() > 0 {
            lemma_at_place_first(b, b[0].0);
            assert(at_place(a, b[0].0) == at_place(b, b[0].0));
            lemma_none_chosen(a, stands_at::<T>(b[0].0));
        }
        assert(a =~= b);
    } else {
        let key = a[0].0;
        lemma_at_place_first(a, key);
        assert(at_place(a, key) == at_place(b, key));
        lemma_at_place_member(b, key);
        let other = b[0].0;
        lemma_at_place_first(b, other);
        assert(at_place(a, other) == at_place(b, other));
        lemma_at_place_member(a, other);
        assert(key == other);
        assert(a[0] == at_place(a, key)[0]);
        assert(b[0] == at_place(b, key)[0]);
        let a_rest = a.drop_first();
        let b_rest = b.drop_first();
        assert forall|k: usize| #[trigger] at_place(a_rest, k) == at_place(b_rest, k) by {
            lemma_at_place_first(a, k);
            lemma_at_place_first(b, k);
            assert(at_place(a, k) == at_place(b, k));
            if k == key {
                assert(at_place(a_rest, k) =~= at_place(a, k).drop_first());
                assert(at_place(b_rest, k) =~= at_place(b, k).drop_first());
            }
        }
        lemma_one_order(a_rest, b_rest);
        assert(a =~= seq![a[0]] + a_rest);
        assert(b =~= seq![b[0]] + b_rest);
    }
}

/// There is one way to put items in order.
pub proof fn sorting_has_one_result<T>(items: Seq<(usize, T)>, result: Seq<(usize, T)>)
    requires
        sorted_by_place(items, result),
    ensures
        result == sorted(items),
{
    let other = sorted(items);
    assert(sorted_by_place(items, other));
    assert forall|key: usize| #[trigger] at_place(result, key) == at_place(other, key) by {
        assert(at_place(items, key) == at_place(result, key));
        assert(at_place(items, key) == at_place(other, key));
    }
    lemma_one_order(result, other);
}

/// `items` with `f` of each value in its place.
pub open spec fn relabelled<T, U>(items: Seq<(usize, T)>, f: spec_fn(T) -> U) -> Seq<(usize, U)> {
    items.map_values(|item: (usize, T)| (item.0, f(item.1)))
}

pub(crate) proof fn lemma_relabelled_push<T, U>(
    items: Seq<(usize, T)>,
    item: (usize, T),
    f: spec_fn(T) -> U,
)
    ensures
        relabelled(items.push(item), f) == relabelled(items, f).push((item.0, f(item.1))),
{
    assert(relabelled(items.push(item), f) =~= relabelled(items, f).push((item.0, f(item.1))));
}

pub(crate) proof fn lemma_relabelled_add<T, U>(
    first: Seq<(usize, T)>,
    second: Seq<(usize, T)>,
    f: spec_fn(T) -> U,
)
    ensures
        relabelled(first + second, f) == relabelled(first, f) + relabelled(second, f),
{
    assert(relabelled(first + second, f) =~= relabelled(first, f) + relabelled(second, f));
}

/// Of the values it does not matter for the order what they are.
pub(crate) proof fn lemma_order_of_labels<T, U>(
    items: Seq<(usize, T)>,
    result: Seq<(usize, T)>,
    f: spec_fn(T) -> U,
)
    requires
        sorted_by_place(items, result),
    ensures
        relabelled(result, f) == sorted(relabelled(items, f)),
{
    assert forall|key: usize| at_place(relabelled(result, f), key) == #[trigger] at_place(
        relabelled(items, f),
        key,
    ) by {
        lemma_at_place_relabelled(items, key, f);
        lemma_at_place_relabelled(result, key, f);
        assert(at_place(items, key) == at_place(result, key));
    }
    assert(in_order(relabelled(result, f)));
    sorting_has_one_result(relabelled(items, f), relabelled(result, f));
}

proof fn lemma_at_place_relabelled<T, U>(items: Seq<(usize, T)>, key: usize, f: spec_fn(T) -> U)
    ensures
        at_place(relabelled(items, f), key) == relabelled(at_place(items, key), f),
    decreases items.len(),
{
    if items.len() == 0 {
        lemma_none_chosen(items, stands_at::<T>(key));
        lemma_none_chosen(relabelled(items, f), stands_at::<U>(key));
        assert(at_place(relabelled(items, f), key) =~= relabelled(at_place(items, key), f));
    } else {
        let rest = items.drop_first();
        lemma_at_place_relabelled(rest, key, f);
        lemma_at_place_first(items, key);
        lemma_at_place_first(relabelled(items, f), key);
        assert(relabelled(items, f).drop_first() =~= relabelled(rest, f));
        assert(at_place(relabelled(items, f), key) =~= relabelled(at_place(items, key), f));
    }
}

/// `values`, each at the place that it has in the list.
pub open spec fn placed<T>(values: Seq<T>) -> Seq<(usize, T)> {
    Seq::new(values.len(), |i: int| (i as usize, values[i]))
}

/// Whether `items` are `values`, each with its place, in any order.
pub open spec fn is_shuffle<T>(items: Seq<(usize, T)>, values: Seq<T>) -> bool {
    &&& items.no_duplicates()
    &&& items.to_set() == placed(values).to_set()
}

/// A value stands alone at its place.
proof fn lemma_one_per_place<T>(items: Seq<(usize, T)>, values: Seq<T>, key: usize)
    requires
        is_shuffle(items, values),
        values.len() <= usize::MAX,
    ensures
        at_place(items, key) == if key < values.len() {
            seq![(key, values[key as int])]
        } else {
            Seq::empty()
        },
{
    let here = stands_at::<T>(key);
    assert forall|i: int| 0 <= i < items.len() && here(items[i]) implies key < values.len()
        && items[i] == (key, values[key as int]) by {
        assert(items.to_set().contains(items[i]));
        assert(placed(values).to_set().contains(items[i]));
        let j = choose|j: int| 0 <= j < placed(values).len() && placed(values)[j] == items[i];
        assert(placed(values)[j] == (j as usize, values[j]));
    }
    if key < values.len() {
        let wanted = (key, values[key as int]);
        assert(placed(values)[key as int] == wanted);
        assert(placed(values).to_set().contains(wanted));
        assert(items.to_set().contains(wanted));
        let at = choose|i: int| 0 <= i < items.len() && items[i] == wanted;
        let front = items.take(at);
        let back = items.skip(at + 1);
        assert(items =~= front + (seq![wanted] + back));
        Seq::filter_distributes_over_add(front, seq![wanted] + back, here);
        Seq::filter_distributes_over_add(seq![wanted], back, here);
        assert forall|i: int| 0 <= i < front.len() implies !here(#[trigger] front[i]) by {
            assert(front[i] == items[i]);
        }
        assert forall|i: int| 0 <= i < back.len() implies !here(#[trigger] back[i]) by {
            assert(back[i] == items[at + 1 + i]);
        }
        lemma_none_chosen(front, here);
        lemma_none_chosen(back, here);
        lemma_at_place_first(seq![wanted], key);
        lemma_none_chosen(seq![wanted].drop_first(), here);
        assert(at_place(items, key) =~= seq![wanted]);
    } else {
        lemma_none_chosen(items, here);
    }
}

/// Whatever the order in which they come in, sorting puts values back at their
/// places.
pub proof fn sorting_undoes_any_shuffle<T>(items: Seq<(usize, T)>, values: Seq<T>)
    requires
        is_shuffle(items, values),
        values.len() <= usize::MAX,
    ensures
        sorted(items) == placed(values),
{
    let target = placed(values);
    assert forall|i: int, j: int| 0 <= i < j < target.len() implies target[i] != target[j] by {
        assert(target[i].0 == i && target[j].0 == j);
    }
    assert(is_shuffle(target, values));
    assert forall|key: usize| at_place(target, key) == #[trigger] at_place(items, key) by {
        lemma_one_per_place(items, values, key);
        lemma_one_per_place(target, values, key);
    }
    assert(sorted_by_place(items, target));
    sorting_has_one_result(items, target);
}

} // verus!
