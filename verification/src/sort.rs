//! Stable sorting.
use vstd::prelude::*;

verus! {

/// Keys by which a list is sorted. Of two keys the one may come before the other; where neither
/// does, the list's own order decides.
pub trait SortKey: Sized {
    /// Whether this key comes before another.
    spec fn comes_before(self, other: Self) -> bool;

    /// No two keys come before each other.
    proof fn one_way(a: Self, b: Self)
        ensures
            !(a.comes_before(b) && b.comes_before(a)),
    ;

    /// What comes before a key comes before all that does not come before that key.
    proof fn in_line(a: Self, b: Self, c: Self)
        ensures
            a.comes_before(b) ==> a.comes_before(c) || c.comes_before(b),
    ;

    /// Whether this key comes before another.
    fn is_before(&self, other: &Self) -> (b: bool)
        ensures
            b == self.comes_before(*other),
    ;
}

/// Whether item `i` belongs in front of item `j`: its key comes before, or neither key does and
/// the item stood in front.
pub open spec fn belongs_before<K: SortKey>(keys: Seq<K>, i: int, j: int) -> bool {
    keys[i].comes_before(keys[j]) || (!keys[j].comes_before(keys[i]) && i < j)
}

/// Whether `order` lists the places `0..n` as they belong.
pub open spec fn is_order<K: SortKey>(keys: Seq<K>, order: Seq<usize>, n: int) -> bool {
    &&& order.len() == n
    &&& forall|a: int| 0 <= a < n ==> (#[trigger] order[a]) < n
    &&& forall|a: int, b: int|
        #![trigger order[a], order[b]]
        0 <= a < b < n ==> belongs_before(keys, order[a] as int, order[b] as int)
}

/// An order lists each place once.
pub proof fn order_has_no_repeats<K: SortKey>(keys: Seq<K>, order: Seq<usize>, n: int)
    requires
        is_order(keys, order, n),
    ensures
        forall|a: int, b: int| 0 <= a < b < n ==> #[trigger] order[a] != #[trigger] order[b],
{
    assert forall|a: int, b: int| 0 <= a < b < n implies #[trigger] order[a]
        != #[trigger] order[b] by {
        K::one_way(keys[order[a] as int], keys[order[a] as int]);
    }
}

proof fn belongs_is_transitive<K: SortKey>(keys: Seq<K>, i: int, j: int, k: int)
    requires
        belongs_before(keys, i, j),
        belongs_before(keys, j, k),
    ensures
        belongs_before(keys, i, k),
{
    K::in_line(keys[i], keys[j], keys[k]);
    K::in_line(keys[j], keys[k], keys[i]);
    K::in_line(keys[k], keys[i], keys[j]);
    K::one_way(keys[i], keys[j]);
    K::one_way(keys[j], keys[k]);
    K::one_way(keys[i], keys[k]);
}

/// The order in which a list belongs, by the keys of its items.
pub fn sort_order<K: SortKey>(keys: &Vec<K>) -> (order: Vec<usize>)
    ensures
        is_order(keys@, order@, keys@.len() as int),
{
    let mut order: Vec<usize> = Vec::new();
    let mut i: usize = 0;
    while i < keys.len()
        invariant
            i <= keys@.len(),
            is_order(keys@, order@, i as int),
        decreases keys@.len() - i,
    {
        let mut low: usize = 0;
        let mut high: usize = order.len();
        while low < high
            invariant
                low <= high <= i < keys@.len(),
                is_order(keys@, order@, i as int),
                forall|a: int|
                    0 <= a < low ==> belongs_before(
                        keys@,
                        (#[trigger] order@[a]) as int,
                        i as int,
                    ),
                forall|a: int|
                    high <= a < i ==> belongs_before(
                        keys@,
                        i as int,
                        (#[trigger] order@[a]) as int,
                    ),
            decreases high - low,
        {
            let middle: usize = low + (high - low) / 2;
            let ghost m = order@[middle as int] as int;
            if keys[i].is_before(&keys[order[middle]]) {
                assert forall|a: int| middle <= a < i implies belongs_before(
                    keys@,
                    i as int,
                    (#[trigger] order@[a]) as int,
                ) by {
                    if a > middle {
                        belongs_is_transitive(keys@, i as int, m, order@[a] as int);
                    }
                }
                high = middle;
            } else {
                assert forall|a: int| 0 <= a <= middle implies belongs_before(
                    keys@,
                    (#[trigger] order@[a]) as int,
                    i as int,
                ) by {
                    if a < middle {
                        belongs_is_transitive(keys@, order@[a] as int, m, i as int);
                    }
                }
                low = middle + 1;
            }
        }
        let ghost before = order@;
        order.insert(low, i);
        assert forall|a: int, b: int|
            #![trigger order@[a], order@[b]]
            0 <= a < b < i + 1 implies belongs_before(
            keys@,
            order@[a] as int,
            order@[b] as int,
        ) by {
            let x = if a < low {
                a
            } else {
                a - 1
            };
            let y = if b < low {
                b
            } else {
                b - 1
            };
            if a == low {
                assert(order@[b] == before[y]);
            } else if b == low {
                assert(order@[a] == before[x]);
            } else {
                assert(order@[a] == before[x] && order@[b] == before[y]);
            }
        }
        assert forall|a: int| 0 <= a < i + 1 implies (#[trigger] order@[a]) < i + 1 by {
            if a < low {
                assert(order@[a] == before[a]);
            } else if a > low {
                assert(order@[a] == before[a - 1]);
            }
        }
        i = i + 1;
    }
    order
}

/// Whether `sorted` is `list` in the order that its keys ask for.
pub open spec fn is_sorted_list<K: SortKey, T>(keys: Seq<K>, list: Seq<T>, sorted: Seq<T>) -> bool {
    exists|order: Seq<usize>| #[trigger]
        is_order(keys, order, list.len() as int) && arranged(list, order) == sorted
}

/// The items of `list` in the order `order`.
pub open spec fn arranged<T>(list: Seq<T>, order: Seq<usize>) -> Seq<T> {
    Seq::new(order.len(), |i: int| list[order[i] as int])
}

/// An order lists every place.
pub proof fn order_leaves_nothing_out<K: SortKey>(
    keys: Seq<K>,
    order: Seq<usize>,
    n: int,
    place: int,
)
    requires
        is_order(keys, order, n),
        0 <= place < n,
    ensures
        exists|a: int| 0 <= a < n && #[trigger] order[a] == place,
{
    let places = Seq::new(n as nat, |a: int| order[a] as int);
    order_has_no_repeats(keys, order, n);
    assert(places.no_duplicates()) by {
        assert forall|a: int, b: int|
            0 <= a < n && 0 <= b < n && a != b implies places[a] != places[b] by {
            if a < b {
                assert(order[a] != order[b]);
            } else {
                assert(order[b] != order[a]);
            }
        }
    }
    places.unique_seq_to_set();
    vstd::seq_lib::seq_to_set_is_finite(places);
    vstd::set_lib::lemma_int_range(0, n);
    let range = vstd::set_lib::set_int_range(0, n);
    assert forall|x: int| #[trigger] places.to_set().contains(x) implies range.contains(x) by {
        let a = choose|a: int| 0 <= a < n && places[a] == x;
        assert(order[a] < n);
    }
    vstd::set_lib::lemma_subset_equality(places.to_set(), range);
    assert(range.contains(place));
    assert(places.contains(place));
    let a = choose|a: int| 0 <= a < n && places[a] == place;
    assert(order[a] == place);
}

/// There is only one order: a list can be sorted in one way.
pub proof fn order_is_unique<K: SortKey>(keys: Seq<K>, one: Seq<usize>, other: Seq<usize>, n: int)
    requires
        is_order(keys, one, n),
        is_order(keys, other, n),
    ensures
        one == other,
{
    agree_up_to(keys, one, other, n, n);
    assert(one == other);
}

proof fn agree_up_to<K: SortKey>(
    keys: Seq<K>,
    one: Seq<usize>,
    other: Seq<usize>,
    n: int,
    k: int,
)
    requires
        is_order(keys, one, n),
        is_order(keys, other, n),
        0 <= k <= n,
    ensures
        forall|a: int| 0 <= a < k ==> #[trigger] one[a] == other[a],
    decreases k,
{
    if k > 0 {
        agree_up_to(keys, one, other, n, k - 1);
        let x = one[k - 1] as int;
        let y = other[k - 1] as int;
        if x != y {
            order_has_no_repeats(keys, one, n);
            order_has_no_repeats(keys, other, n);
            order_leaves_nothing_out(keys, one, n, y);
            order_leaves_nothing_out(keys, other, n, x);
            let a = choose|a: int| 0 <= a < n && #[trigger] one[a] == y;
            let b = choose|b: int| 0 <= b < n && #[trigger] other[b] == x;
            if a < k - 1 {
                assert(one[a] == other[a]);
                assert(other[a] != other[k - 1]);
            }
            if b < k - 1 {
                assert(one[b] == other[b]);
                assert(one[b] != one[k - 1]);
            }
            assert(belongs_before(keys, x, y));
            assert(belongs_before(keys, y, x));
            K::one_way(keys[x], keys[y]);
        }
    }
}

/// Items of which neither comes before the other keep the order in which they stood.
pub proof fn equal_keys_keep_their_order<K: SortKey>(
    keys: Seq<K>,
    order: Seq<usize>,
    n: int,
    a: int,
    b: int,
)
    requires
        is_order(keys, order, n),
        0 <= a < b < n,
    ensures
        !keys[order[b] as int].comes_before(keys[order[a] as int]),
        !keys[order[a] as int].comes_before(keys[order[b] as int]) ==> order[a] < order[b],
{
    assert(belongs_before(keys, order[a] as int, order[b] as int));
    K::one_way(keys[order[a] as int], keys[order[b] as int]);
}

/// A sorted list holds what the list holds, and nothing else: it is as long, every item of either is
/// in the other.
pub proof fn sorting_loses_nothing<K: SortKey, T>(keys: Seq<K>, list: Seq<T>, sorted: Seq<T>)
    requires
        is_sorted_list(keys, list, sorted),
    ensures
        sorted.len() == list.len(),
        forall|item: T| #[trigger] sorted.contains(item) == list.contains(item),
{
    let order = choose|order: Seq<usize>| #[trigger]
        is_order(keys, order, list.len() as int) && arranged(list, order) == sorted;
    let n = list.len() as int;
    assert forall|item: T| #[trigger] sorted.contains(item) == list.contains(item) by {
        if sorted.contains(item) {
            let a = choose|a: int| 0 <= a < sorted.len() && sorted[a] == item;
            assert(order[a] < n);
            assert(list[order[a] as int] == item);
        }
        if list.contains(item) {
            let i = choose|i: int| 0 <= i < list.len() && list[i] == item;
            order_leaves_nothing_out(keys, order, n, i);
            let a = choose|a: int| 0 <= a < n && #[trigger] order[a] == i;
            assert(sorted[a] == item);
        }
    }
}

} // verus!
