//! The stacking order of layers and of what is drawn on them.
//!
//! An item is an identifier with an order; a greater order is nearer the front.

use vstd::prelude::*;

verus! {

/// The order of an item at most that of every item after it.
pub open spec fn sorted_by_order(s: Seq<(u64, i32)>) -> bool {
    forall|i: int, j: int| 0 <= i < j < s.len() ==> (#[trigger] s[i]).1 <= (#[trigger] s[j]).1
}

/// The property of having an order.
pub open spec fn order_is(order: i32) -> spec_fn((u64, i32)) -> bool {
    |item: (u64, i32)| item.1 == order
}

/// The items of one order, as they stand.
pub open spec fn with_order(s: Seq<(u64, i32)>, order: i32) -> Seq<(u64, i32)> {
    s.filter(order_is(order))
}

/// Whether `r` holds the items of `s` by rising order, those of equal order as
/// they stood in `s`.
pub open spec fn stable_sort_of(s: Seq<(u64, i32)>, r: Seq<(u64, i32)>) -> bool {
    &&& sorted_by_order(r)
    &&& r.len() == s.len()
    &&& r.to_multiset() == s.to_multiset()
    &&& forall|order: i32| #[trigger] with_order(r, order) == with_order(s, order)
}

proof fn lemma_filter_none<A>(s: Seq<A>, pred: spec_fn(A) -> bool)
    requires
        forall|i: int| 0 <= i < s.len() ==> !pred(#[trigger] s[i]),
    ensures
        s.filter(pred) == Seq::<A>::empty(),
    decreases s.len(),
{
    reveal(Seq::filter);
    if s.len() > 0 {
        assert forall|i: int| 0 <= i < s.drop_last().len() implies !pred(
            #[trigger] s.drop_last()[i],
        ) by {
            assert(s.drop_last()[i] == s[i]);
        }
        lemma_filter_none(s.drop_last(), pred);
        assert(!pred(s[s.len() - 1]));
    }
}

/// Inserting an item behind those of at most its order keeps a sequence sorted
/// and stands for appending the item before sorting.
proof fn lemma_insert(s: Seq<(u64, i32)>, r: Seq<(u64, i32)>, p: int, item: (u64, i32))
    requires
        stable_sort_of(s, r),
        0 <= p <= r.len(),
        forall|i: int| 0 <= i < p ==> (#[trigger] r[i]).1 <= item.1,
        forall|i: int| p <= i < r.len() ==> (#[trigger] r[i]).1 > item.1,
    ensures
        stable_sort_of(s.push(item), r.insert(p, item)),
{
    let r2 = r.insert(p, item);
    let head = r.subrange(0, p);
    let tail = r.subrange(p, r.len() as int);
    assert(r =~= head + tail);
    assert(r2 =~= head + (seq![item] + tail));
    assert forall|i: int, j: int| 0 <= i < j < r2.len() implies (#[trigger] r2[i]).1 <= (
    #[trigger] r2[j]).1 by {
        if i < p {
            assert(r2[i] == r[i]);
            if j > p {
                assert(r2[j] == r[j - 1]);
            }
        } else if i > p {
            assert(r2[i] == r[i - 1] && r2[j] == r[j - 1]);
        } else {
            assert(r2[j] == r[j - 1]);
        }
    }
    assert(r2.to_multiset() =~= s.push(item).to_multiset()) by {
        r.to_multiset_ensures();
        r.insert_ensures(p, item);
        lemma_insert_multiset(r, p, item);
        s.to_multiset_ensures();
    }
    assert forall|order: i32| #[trigger] with_order(r2, order) == with_order(s.push(item), order) by {
        let pred = order_is(order);
        broadcast use Seq::filter_distributes_over_add;

        Seq::filter_distributes_over_add(head, tail, pred);
        Seq::filter_distributes_over_add(head, seq![item] + tail, pred);
        Seq::filter_distributes_over_add(seq![item], tail, pred);
        assert(s.push(item) =~= s + seq![item]);
        Seq::filter_distributes_over_add(s, seq![item], pred);
        assert(with_order(r, order) == with_order(s, order));
        if item.1 == order {
            assert forall|i: int| 0 <= i < tail.len() implies !pred(#[trigger] tail[i]) by {
                assert(tail[i] == r[p + i]);
            }
            lemma_filter_none(tail, pred);
        } else {
            assert forall|i: int| 0 <= i < seq![item].len() implies !pred(
                #[trigger] seq![item][i],
            ) by {}
            lemma_filter_none(seq![item], pred);
        }
        assert(with_order(r2, order) =~= with_order(s.push(item), order));
    }
}

proof fn lemma_insert_multiset(r: Seq<(u64, i32)>, p: int, item: (u64, i32))
    requires
        0 <= p <= r.len(),
    ensures
        r.insert(p, item).to_multiset() == r.to_multiset().insert(item),
{
    let head = r.subrange(0, p);
    let tail = r.subrange(p, r.len() as int);
    assert(r =~= head + tail);
    assert(r.insert(p, item) =~= head.push(item) + tail);
    vstd::seq_lib::lemma_multiset_commutative(head, tail);
    vstd::seq_lib::lemma_multiset_commutative(head.push(item), tail);
    head.to_multiset_ensures();
    assert(r.insert(p, item).to_multiset() =~= r.to_multiset().insert(item));
}

/// The items by rising order, those of equal order as they stood.
pub fn sort_by_order(items: &Vec<(u64, i32)>) -> (r: Vec<(u64, i32)>)
    ensures
        stable_sort_of(items@, r@),
{
    let mut r: Vec<(u64, i32)> = Vec::new();
    let mut n: usize = 0;
    assert(items@.take(0) =~= Seq::empty());
    assert(stable_sort_of(items@.take(0), r@)) by {
        assert(r@ =~= items@.take(0));
    }
    while n < items.len()
        invariant
            n <= items@.len(),
            stable_sort_of(items@.take(n as int), r@),
        decreases items@.len() - n,
    {
        let item = items[n];
        let mut p: usize = r.len();
        while p > 0 && r[p - 1].1 > item.1
            invariant
                p <= r@.len(),
                forall|i: int| p <= i < r@.len() ==> (#[trigger] r@[i]).1 > item.1,
            decreases p,
        {
            p = p - 1;
        }
        proof {
            assert forall|i: int| 0 <= i < p implies (#[trigger] r@[i]).1 <= item.1 by {
                if i < p - 1 {
                    assert(r@[i].1 <= r@[p - 1].1);
                }
            }
            lemma_insert(items@.take(n as int), r@, p as int, item);
            assert(items@.take(n + 1) =~= items@.take(n as int).push(item));
        }
        r.insert(p, item);
        n = n + 1;
    }
    assert(items@.take(items@.len() as int) =~= items@);
    r
}

/// The order of the first item with the given identifier.
pub open spec fn order_of(s: Seq<(u64, i32)>, id: u64) -> Option<i32>
    decreases s.len(),
{
    if s.len() == 0 {
        None
    } else {
        match order_of(s.drop_last(), id) {
            Some(order) => Some(order),
            None => if s.last().0 == id {
                Some(s.last().1)
            } else {
                None
            },
        }
    }
}

/// The property of having another identifier.
pub open spec fn other_than(id: u64) -> spec_fn((u64, i32)) -> bool {
    |item: (u64, i32)| item.0 != id
}

/// The items with another identifier.
pub open spec fn others(s: Seq<(u64, i32)>, id: u64) -> Seq<(u64, i32)> {
    s.filter(other_than(id))
}

/// Whether no two items have the same identifier.
pub open spec fn distinct_ids(s: Seq<(u64, i32)>) -> bool {
    forall|i: int, j: int| 0 <= i < j < s.len() ==> (#[trigger] s[i]).0 != (#[trigger] s[j]).0
}

/// Whether `max` is the greatest order of the items.
pub open spec fn is_greatest(s: Seq<(u64, i32)>, max: i32) -> bool {
    &&& exists|i: int| 0 <= i < s.len() && (#[trigger] s[i]).1 == max
    &&& forall|i: int| 0 <= i < s.len() ==> (#[trigger] s[i]).1 <= max
}

/// Whether `min` is the least order of the items.
pub open spec fn is_least(s: Seq<(u64, i32)>, min: i32) -> bool {
    &&& exists|i: int| 0 <= i < s.len() && (#[trigger] s[i]).1 == min
    &&& forall|i: int| 0 <= i < s.len() ==> (#[trigger] s[i]).1 >= min
}

/// The updates that number the first `n` items from `first` on, one for each
/// item whose order changes.
pub open spec fn renumbering(s: Seq<(u64, i32)>, first: int, n: int) -> Seq<(u64, i32)>
    decreases n,
{
    if n <= 0 {
        Seq::empty()
    } else {
        let before = renumbering(s, first, n - 1);
        let order = (first + n - 1) as i32;
        if s[n - 1].1 != order {
            before.push((s[n - 1].0, order))
        } else {
            before
        }
    }
}

/// The updates that number the sorted others from zero on and the target behind
/// them in the count, one for each layer whose order changes.
pub open spec fn front_renumbering(
    sorted: Seq<(u64, i32)>,
    target: u64,
    current: i32,
) -> Seq<(u64, i32)> {
    let numbered = renumbering(sorted, 0, sorted.len() as int);
    if current == sorted.len() {
        numbered
    } else {
        numbered.push((target, sorted.len() as i32))
    }
}

/// The updates that number the target zero and the sorted others from one on,
/// one for each layer whose order changes.
pub open spec fn back_renumbering(
    sorted: Seq<(u64, i32)>,
    target: u64,
    current: i32,
) -> Seq<(u64, i32)> {
    let numbered = renumbering(sorted, 1, sorted.len() as int);
    if current == 0 {
        numbered
    } else {
        seq![(target, 0i32)] + numbered
    }
}

/// Whether `plan` brings the target in front of all others: nothing where the
/// target is unknown or in front already, one update where there is room, and
/// else a renumbering of all.
pub open spec fn is_front_plan(
    layers: Seq<(u64, i32)>,
    target: u64,
    plan: Seq<(u64, i32)>,
) -> bool {
    let rest = others(layers, target);
    match order_of(layers, target) {
        None => plan.len() == 0,
        Some(current) => {
            ||| rest.len() == 0 && plan.len() == 0
            ||| exists|max: i32|
                #![trigger is_greatest(rest, max)]
                is_greatest(rest, max) && if current > max {
                    plan.len() == 0
                } else if max == i32::MAX {
                    exists|sorted: Seq<(u64, i32)>| #[trigger]
                        stable_sort_of(rest, sorted) && plan == front_renumbering(
                            sorted,
                            target,
                            current,
                        )
                } else {
                    plan == seq![(target, (max + 1) as i32)]
                }
        },
    }
}

/// Whether `plan` sends the target behind all others: nothing where the target
/// is unknown or at the back already, one update where there is room, and else
/// a renumbering of all.
pub open spec fn is_back_plan(
    layers: Seq<(u64, i32)>,
    target: u64,
    plan: Seq<(u64, i32)>,
) -> bool {
    let rest = others(layers, target);
    match order_of(layers, target) {
        None => plan.len() == 0,
        Some(current) => {
            ||| rest.len() == 0 && plan.len() == 0
            ||| exists|min: i32|
                #![trigger is_least(rest, min)]
                is_least(rest, min) && if current < min {
                    plan.len() == 0
                } else if min == i32::MIN {
                    exists|sorted: Seq<(u64, i32)>| #[trigger]
                        stable_sort_of(rest, sorted) && plan == back_renumbering(
                            sorted,
                            target,
                            current,
                        )
                } else {
                    plan == seq![(target, (min - 1) as i32)]
                }
        },
    }
}

/// The order that an item has once the updates of a plan were made.
pub open spec fn order_after(
    layers: Seq<(u64, i32)>,
    plan: Seq<(u64, i32)>,
    id: u64,
) -> Option<i32> {
    match order_of(plan, id) {
        Some(order) => Some(order),
        None => order_of(layers, id),
    }
}

/// Whether `max` is the greatest of the orders.
pub open spec fn greatest_of(orders: Seq<i32>, max: i32) -> bool {
    orders.contains(max) && forall|i: int| 0 <= i < orders.len() ==> #[trigger] orders[i] <= max
}

/// Whether `min` is the least of the orders.
pub open spec fn least_of(orders: Seq<i32>, min: i32) -> bool {
    orders.contains(min) && forall|i: int| 0 <= i < orders.len() ==> #[trigger] orders[i] >= min
}

/// The order that brings a layer in front of layers with the given orders: one
/// more than the greatest, as far as the type goes, and never less than now.
pub fn bring_to_front_order(current: i32, other_orders: &Vec<i32>) -> (r: i32)
    ensures
        other_orders@.len() == 0 ==> r == current,
        forall|max: i32| #[trigger]
            greatest_of(other_orders@, max) ==> r == if max == i32::MAX {
                i32::MAX as int
            } else if max + 1 > current {
                max + 1
            } else {
                current as int
            },
{
    if other_orders.len() == 0 {
        return current;
    }
    let mut greatest: i32 = other_orders[0];
    let mut i: usize = 1;
    while i < other_orders.len()
        invariant
            1 <= i <= other_orders@.len(),
            other_orders@.contains(greatest),
            forall|j: int| 0 <= j < i ==> #[trigger] other_orders@[j] <= greatest,
        decreases other_orders@.len() - i,
    {
        if other_orders[i] > greatest {
            greatest = other_orders[i];
        }
        i = i + 1;
    }
    if greatest == i32::MAX {
        i32::MAX
    } else if greatest + 1 > current {
        greatest + 1
    } else {
        current
    }
}

/// The order that sends a layer behind layers with the given orders: one less
/// than the least, as far as the type goes, and never more than now.
pub fn send_to_back_order(current: i32, other_orders: &Vec<i32>) -> (r: i32)
    ensures
        other_orders@.len() == 0 ==> r == current,
        forall|min: i32| #[trigger]
            least_of(other_orders@, min) ==> r == if min == i32::MIN {
                i32::MIN as int
            } else if min - 1 < current {
                min - 1
            } else {
                current as int
            },
{
    if other_orders.len() == 0 {
        return current;
    }
    let mut least: i32 = other_orders[0];
    let mut i: usize = 1;
    while i < other_orders.len()
        invariant
            1 <= i <= other_orders@.len(),
            other_orders@.contains(least),
            forall|j: int| 0 <= j < i ==> #[trigger] other_orders@[j] >= least,
        decreases other_orders@.len() - i,
    {
        if other_orders[i] < least {
            least = other_orders[i];
        }
        i = i + 1;
    }
    if least == i32::MIN {
        i32::MIN
    } else if least - 1 < current {
        least - 1
    } else {
        current
    }
}

fn find_order(layers: &Vec<(u64, i32)>, target: u64) -> (r: Option<i32>)
    ensures
        r == order_of(layers@, target),
{
    let mut found: Option<i32> = None;
    let mut i: usize = 0;
    while i < layers.len()
        invariant
            i <= layers@.len(),
            found == order_of(layers@.take(i as int), target),
        decreases layers@.len() - i,
    {
        assert(layers@.take(i + 1).drop_last() =~= layers@.take(i as int));
        if found.is_none() && layers[i].0 == target {
            found = Some(layers[i].1);
        }
        i = i + 1;
    }
    assert(layers@.take(layers@.len() as int) =~= layers@);
    found
}

fn other_items(layers: &Vec<(u64, i32)>, target: u64) -> (r: Vec<(u64, i32)>)
    ensures
        r@ == others(layers@, target),
{
    let mut r: Vec<(u64, i32)> = Vec::new();
    let mut i: usize = 0;
    proof {
        reveal(Seq::filter);
        assert(layers@.take(0) =~= Seq::empty());
    }
    while i < layers.len()
        invariant
            i <= layers@.len(),
            r@ == others(layers@.take(i as int), target),
        decreases layers@.len() - i,
    {
        proof {
            reveal(Seq::filter);
            assert(layers@.take(i + 1).drop_last() =~= layers@.take(i as int));
        }
        if layers[i].0 != target {
            r.push(layers[i]);
        }
        i = i + 1;
    }
    assert(layers@.take(layers@.len() as int) =~= layers@);
    r
}

fn greatest_order(items: &Vec<(u64, i32)>) -> (r: Option<i32>)
    ensures
        match r {
            Some(max) => is_greatest(items@, max),
            None => items@.len() == 0,
        },
{
    if items.len() == 0 {
        return None;
    }
    let mut max: i32 = items[0].1;
    let mut i: usize = 1;
    while i < items.len()
        invariant
            1 <= i <= items@.len(),
            exists|j: int| 0 <= j < i && (#[trigger] items@[j]).1 == max,
            forall|j: int| 0 <= j < i ==> (#[trigger] items@[j]).1 <= max,
        decreases items@.len() - i,
    {
        if items[i].1 > max {
            max = items[i].1;
        }
        i = i + 1;
    }
    Some(max)
}

fn least_order(items: &Vec<(u64, i32)>) -> (r: Option<i32>)
    ensures
        match r {
            Some(min) => is_least(items@, min),
            None => items@.len() == 0,
        },
{
    if items.len() == 0 {
        return None;
    }
    let mut min: i32 = items[0].1;
    let mut i: usize = 1;
    while i < items.len()
        invariant
            1 <= i <= items@.len(),
            exists|j: int| 0 <= j < i && (#[trigger] items@[j]).1 == min,
            forall|j: int| 0 <= j < i ==> (#[trigger] items@[j]).1 >= min,
        decreases items@.len() - i,
    {
        if items[i].1 < min {
            min = items[i].1;
        }
        i = i + 1;
    }
    Some(min)
}

/// Appends the updates that number the items from `first` on.
fn push_renumbering(plan: &mut Vec<(u64, i32)>, sorted: &Vec<(u64, i32)>, first: i32)
    requires
        0 <= first <= 1,
        sorted@.len() < i32::MAX,
    ensures
        final(plan)@ == old(plan)@ + renumbering(sorted@, first as int, sorted@.len() as int),
{
    let ghost before = plan@;
    let mut i: usize = 0;
    assert(plan@ =~= before + renumbering(sorted@, first as int, 0));
    while i < sorted.len()
        invariant
            i <= sorted@.len(),
            0 <= first <= 1,
            sorted@.len() < i32::MAX,
            plan@ == before + renumbering(sorted@, first as int, i as int),
        decreases sorted@.len() - i,
    {
        let order: i32 = first + i as i32;
        if sorted[i].1 != order {
            plan.push((sorted[i].0, order));
        }
        i = i + 1;
        assert(plan@ =~= before + renumbering(sorted@, first as int, i as int));
    }
}

/// The updates that bring a layer in front of all others.
pub fn front_order_plan(target: u64, layers: &Vec<(u64, i32)>) -> (plan: Vec<(u64, i32)>)
    requires
        layers@.len() < i32::MAX,
    ensures
        is_front_plan(layers@, target, plan@),
{
    let current: i32 = match find_order(layers, target) {
        Some(order) => order,
        None => {
            return Vec::new();
        },
    };
    let rest = other_items(layers, target);
    let max: i32 = match greatest_order(&rest) {
        Some(max) => max,
        None => {
            return Vec::new();
        },
    };
    assert(is_greatest(rest@, max));
    let mut plan: Vec<(u64, i32)> = Vec::new();
    if current > max {
        return plan;
    }
    if max == i32::MAX {
        let sorted = sort_by_order(&rest);
        push_renumbering(&mut plan, &sorted, 0);
        let order: i32 = rest.len() as i32;
        if current != order {
            plan.push((target, order));
        }
        assert(stable_sort_of(rest@, sorted@));
        assert(plan@ =~= front_renumbering(sorted@, target, current));
    } else {
        let orders: Vec<i32> = vec![max];
        let order: i32 = bring_to_front_order(current, &orders);
        assert(orders@[0] == max);
        assert(greatest_of(orders@, max));
        plan.push((target, order));
        assert(plan@ =~= seq![(target, (max + 1) as i32)]);
    }
    plan
}

/// The updates that send a layer behind all others.
pub fn back_order_plan(target: u64, layers: &Vec<(u64, i32)>) -> (plan: Vec<(u64, i32)>)
    requires
        layers@.len() < i32::MAX,
    ensures
        is_back_plan(layers@, target, plan@),
{
    let current: i32 = match find_order(layers, target) {
        Some(order) => order,
        None => {
            return Vec::new();
        },
    };
    let rest = other_items(layers, target);
    let min: i32 = match least_order(&rest) {
        Some(min) => min,
        None => {
            return Vec::new();
        },
    };
    assert(is_least(rest@, min));
    let mut plan: Vec<(u64, i32)> = Vec::new();
    if current < min {
        return plan;
    }
    if min == i32::MIN {
        let sorted = sort_by_order(&rest);
        if current != 0 {
            plan.push((target, 0));
        }
        push_renumbering(&mut plan, &sorted, 1);
        assert(stable_sort_of(rest@, sorted@));
        assert(plan@ =~= back_renumbering(sorted@, target, current));
    } else {
        let orders: Vec<i32> = vec![min];
        let order: i32 = send_to_back_order(current, &orders);
        assert(orders@[0] == min);
        assert(least_of(orders@, min));
        plan.push((target, order));
        assert(plan@ =~= seq![(target, (min - 1) as i32)]);
    }
    plan
}

proof fn lemma_order_of(s: Seq<(u64, i32)>, id: u64)
    ensures
        match order_of(s, id) {
            Some(order) => s.contains((id, order)),
            None => forall|i: int| 0 <= i < s.len() ==> (#[trigger] s[i]).0 != id,
        },
    decreases s.len(),
{
    if s.len() > 0 {
        let head = s.drop_last();
        lemma_order_of(head, id);
        match order_of(head, id) {
            Some(order) => {
                let i = head.index_of((id, order));
                assert(s[i] == (id, order));
            },
            None => {
                if s.last().0 == id {
                    assert(s[s.len() - 1] == (id, s.last().1));
                } else {
                    assert forall|i: int| 0 <= i < s.len() implies (#[trigger] s[i]).0 != id by {
                        if i < head.len() {
                            assert(head[i] == s[i]);
                        }
                    }
                }
            },
        }
    }
}

proof fn lemma_order_at(s: Seq<(u64, i32)>, i: int)
    requires
        distinct_ids(s),
        0 <= i < s.len(),
    ensures
        order_of(s, s[i].0) == Some(s[i].1),
{
    lemma_order_of(s, s[i].0);
    match order_of(s, s[i].0) {
        Some(order) => {
            let j = s.index_of((s[i].0, order));
            assert(s[j].0 == s[i].0);
            if i < j {
                assert(s[i].0 != s[j].0);
            } else if j < i {
                assert(s[j].0 != s[i].0);
            }
        },
        None => {},
    }
}

/// After numbering the first `n` items from `first` on, an update stands for
/// each of them whose order changed, and for no other identifier.
proof fn lemma_renumbering(s: Seq<(u64, i32)>, first: int, n: int, id: u64)
    requires
        distinct_ids(s),
        0 <= n <= s.len(),
        0 <= first <= 1,
        s.len() < i32::MAX,
    ensures
        forall|i: int|
            0 <= i < n && (#[trigger] s[i]).0 == id ==> order_of(renumbering(s, first, n), id)
                == if s[i].1 != first + i {
                Some((first + i) as i32)
            } else {
                None
            },
        (forall|i: int| 0 <= i < n ==> (#[trigger] s[i]).0 != id) ==> order_of(
            renumbering(s, first, n),
            id,
        ) is None,
    decreases n,
{
    if n > 0 {
        lemma_renumbering(s, first, n - 1, id);
        let before = renumbering(s, first, n - 1);
        let after = renumbering(s, first, n);
        let order = (first + n - 1) as i32;
        if s[n - 1].1 != order {
            assert(after.drop_last() =~= before);
            assert(after.last() == (s[n - 1].0, order));
        }
        if s[n - 1].0 == id {
            assert forall|i: int| 0 <= i < n - 1 implies (#[trigger] s[i]).0 != id by {}
        }
    }
}

proof fn lemma_stable_sort_members(s: Seq<(u64, i32)>, r: Seq<(u64, i32)>)
    requires
        stable_sort_of(s, r),
        distinct_ids(s),
    ensures
        distinct_ids(r),
        forall|x: (u64, i32)| #[trigger] r.contains(x) <==> s.contains(x),
{
    s.to_multiset_ensures();
    r.to_multiset_ensures();
    assert forall|x: (u64, i32)| #[trigger] r.contains(x) <==> s.contains(x) by {
        assert(r.contains(x) <==> r.to_multiset().count(x) > 0);
        assert(s.contains(x) <==> s.to_multiset().count(x) > 0);
    }
    assert forall|i: int, j: int| 0 <= i < j < r.len() implies (#[trigger] r[i]).0 != (
    #[trigger] r[j]).0 by {
        if r[i].0 == r[j].0 {
            assert(r.contains(r[i]) && r.contains(r[j]));
            let a = s.index_of(r[i]);
            let b = s.index_of(r[j]);
            if a == b {
                assert(r[i] == r[j]);
                assert(s.no_duplicates());
                s.lemma_multiset_has_no_duplicates();
                r.lemma_multiset_has_no_duplicates_conv();
                assert(r[i] != r[j]);
            } else if a < b {
                assert(s[a].0 != s[b].0);
            } else {
                assert(s[b].0 != s[a].0);
            }
        }
    }
}

proof fn lemma_others(layers: Seq<(u64, i32)>, target: u64)
    requires
        distinct_ids(layers),
    ensures
        distinct_ids(others(layers, target)),
        forall|i: int|
            0 <= i < others(layers, target).len() ==> (#[trigger] others(layers, target)[i]).0
                != target,
        forall|x: (u64, i32)| #[trigger]
            others(layers, target).contains(x) <==> layers.contains(x) && x.0 != target,
    decreases layers.len(),
{
    reveal(Seq::filter);
    if layers.len() > 0 {
        let head = layers.drop_last();
        lemma_others(head, target);
        let before = others(head, target);
        let after = others(layers, target);
        let last = layers.last();
        assert(layers =~= head.push(last));
        assert forall|x: (u64, i32)| #[trigger] after.contains(x) <==> layers.contains(x) && x.0
            != target by {
            if after.contains(x) {
                let i = after.index_of(x);
                if i < before.len() {
                    assert(before[i] == x);
                    assert(before.contains(x));
                    let k = head.index_of(x);
                    assert(layers[k] == x);
                } else {
                    assert(layers[layers.len() - 1] == x);
                }
            }
            if layers.contains(x) && x.0 != target {
                let k = layers.index_of(x);
                if k < head.len() {
                    assert(head[k] == x);
                    assert(before.contains(x));
                    let i = before.index_of(x);
                    assert(after[i] == x);
                } else {
                    assert(after[after.len() - 1] == x);
                }
            }
        }
        if last.0 != target {
            assert forall|i: int| 0 <= i < before.len() implies (#[trigger] before[i]).0
                != last.0 by {
                assert(before.contains(before[i]));
                let k = head.index_of(before[i]);
                assert(layers[k] == before[i]);
                assert(layers[k].0 != layers[layers.len() - 1].0);
            }
        }
    }
}

/// Filtering keeps what stands before what.
proof fn lemma_filter_order<A>(s: Seq<A>, pred: spec_fn(A) -> bool, a: int, b: int)
    requires
        0 <= a < b < s.len(),
        pred(s[a]),
        pred(s[b]),
    ensures
        exists|i: int, j: int|
            0 <= i < j < s.filter(pred).len() && #[trigger] s.filter(pred)[i] == s[a]
                && #[trigger] s.filter(pred)[j] == s[b],
    decreases s.len(),
{
    reveal(Seq::filter);
    let head = s.drop_last();
    let f = s.filter(pred);
    let g = head.filter(pred);
    if b < s.len() - 1 {
        lemma_filter_order(head, pred, a, b);
        let (i, j) = choose|i: int, j: int|
            0 <= i < j < g.len() && #[trigger] g[i] == head[a] && #[trigger] g[j] == head[b];
        assert(f[i] == s[a] && f[j] == s[b]);
    } else {
        assert(head[a] == s[a]);
        assert(head.contains(s[a]));
        assert(g.contains(s[a])) by {
            head.lemma_filter_contains(pred, a);
        }
        let i = g.index_of(s[a]);
        assert(f[i] == s[a] && f[f.len() - 1] == s[b]);
    }
}

/// Sorting keeps what stands before what, except where a smaller order comes
/// after a greater one.
pub proof fn lemma_sort_keeps_order(
    s: Seq<(u64, i32)>,
    r: Seq<(u64, i32)>,
    i: int,
    j: int,
    ri: int,
    rj: int,
)
    requires
        stable_sort_of(s, r),
        distinct_ids(s),
        0 <= i < j < s.len(),
        0 <= ri < r.len(),
        0 <= rj < r.len(),
        r[ri] == s[i],
        r[rj] == s[j],
    ensures
        s[i].1 <= s[j].1 ==> ri < rj,
        s[i].1 > s[j].1 ==> rj < ri,
{
    lemma_stable_sort_members(s, r);
    assert(s[i].0 != s[j].0);
    assert(ri != rj);
    if s[i].1 < s[j].1 && rj < ri {
        assert(r[rj].1 <= r[ri].1);
    } else if s[i].1 > s[j].1 && ri < rj {
        assert(r[ri].1 <= r[rj].1);
    } else if s[i].1 == s[j].1 && rj < ri {
        let order = s[i].1;
        let pred = order_is(order);
        assert(with_order(r, order) == with_order(s, order));
        let f = s.filter(pred);
        assert(r.filter(pred) == f);
        lemma_filter_order(s, pred, i, j);
        lemma_filter_order(r, pred, rj, ri);
        let (a, b) = choose|a: int, b: int|
            0 <= a < b < f.len() && #[trigger] f[a] == s[i] && #[trigger] f[b] == s[j];
        let (c, d) = choose|c: int, d: int|
            0 <= c < d < r.filter(pred).len() && #[trigger] r.filter(pred)[c] == r[rj]
                && #[trigger] r.filter(pred)[d] == r[ri];
        lemma_filter_distinct(s, pred);
        assert(f[b] == f[c] && f[a] == f[d]);
    }
}

/// There is only one way to sort with items of equal order as they stood.
pub proof fn lemma_sort_is_unique(s: Seq<(u64, i32)>, r1: Seq<(u64, i32)>, r2: Seq<(u64, i32)>)
    requires
        stable_sort_of(s, r1),
        stable_sort_of(s, r2),
    ensures
        r1 == r2,
{
    assert forall|order: i32| #[trigger] with_order(r1, order) == with_order(r2, order) by {
        assert(with_order(r1, order) == with_order(s, order));
        assert(with_order(r2, order) == with_order(s, order));
    }
    lemma_same_sorted(r1, r2);
}

proof fn lemma_same_sorted(r1: Seq<(u64, i32)>, r2: Seq<(u64, i32)>)
    requires
        sorted_by_order(r1),
        sorted_by_order(r2),
        r1.len() == r2.len(),
        forall|order: i32| #[trigger] with_order(r1, order) == with_order(r2, order),
    ensures
        r1 == r2,
    decreases r1.len(),
{
    if r1.len() == 0 {
        assert(r1 =~= r2);
        return ;
    }
    let h1 = r1.drop_last();
    let h2 = r2.drop_last();
    lemma_last_of_order(r1);
    lemma_last_of_order(r2);
    let m1 = r1.last().1;
    let m2 = r2.last().1;
    assert(with_order(r1, m1) == with_order(r2, m1));
    assert(with_order(r1, m2) == with_order(r2, m2));
    lemma_filter_from(r2, order_is(m1), with_order(r2, m1).len() - 1);
    lemma_filter_from(r1, order_is(m2), with_order(r1, m2).len() - 1);
    assert(m1 <= m2);
    assert(m2 <= m1);
    assert(r1.last() == r2.last());
    assert forall|order: i32| #[trigger] with_order(h1, order) == with_order(h2, order) by {
        reveal(Seq::filter);
        assert(with_order(r1, order) == with_order(r2, order));
        if order == m1 {
            assert(with_order(h1, order) =~= with_order(r1, order).drop_last());
            assert(with_order(h2, order) =~= with_order(r2, order).drop_last());
        }
    }
    lemma_same_sorted(h1, h2);
    assert(r1 =~= h1.push(r1.last()));
    assert(r2 =~= h2.push(r2.last()));
}

/// The last item is the last of its order.
proof fn lemma_last_of_order(r: Seq<(u64, i32)>)
    requires
        r.len() > 0,
    ensures
        with_order(r, r.last().1).len() > 0,
        with_order(r, r.last().1).last() == r.last(),
{
    reveal(Seq::filter);
}

/// What passes a filter stands somewhere in the sequence and has the property.
proof fn lemma_filter_from<A>(s: Seq<A>, pred: spec_fn(A) -> bool, i: int)
    requires
        0 <= i < s.filter(pred).len(),
    ensures
        pred(s.filter(pred)[i]),
        exists|j: int| 0 <= j < s.len() && s[j] == s.filter(pred)[i],
    decreases s.len(),
{
    reveal(Seq::filter);
    if s.len() > 0 {
        let before = s.drop_last().filter(pred);
        if i < before.len() {
            lemma_filter_from(s.drop_last(), pred, i);
            let j = choose|j: int|
                0 <= j < s.drop_last().len() && s.drop_last()[j] == s.drop_last().filter(pred)[i];
            assert(s[j] == s.filter(pred)[i]);
        } else {
            assert(s[s.len() - 1] == s.filter(pred)[i]);
        }
    }
}

proof fn lemma_filter_distinct(s: Seq<(u64, i32)>, pred: spec_fn((u64, i32)) -> bool)
    requires
        distinct_ids(s),
    ensures
        distinct_ids(s.filter(pred)),
    decreases s.len(),
{
    reveal(Seq::filter);
    if s.len() > 0 {
        let head = s.drop_last();
        let g = head.filter(pred);
        lemma_filter_distinct(head, pred);
        if pred(s.last()) {
            assert forall|i: int| 0 <= i < g.len() implies (#[trigger] g[i]).0 != s.last().0 by {
                assert(g.contains(g[i]));
                assert(head.contains(g[i])) by {
                    head.lemma_filter_contains_rev(pred, g[i]);
                }
                let k = head.index_of(g[i]);
                assert(s[k] == g[i]);
                assert(s[k].0 != s[s.len() - 1].0);
            }
        }
    }
}

/// What a change of the stacking order does to two layers at positions `ix` and
/// `iy` that are not its target: it keeps a layer behind every layer of greater
/// order, and of two layers of equal order never puts the earlier one in front.
pub open spec fn keeps_order(
    layers: Seq<(u64, i32)>,
    plan: Seq<(u64, i32)>,
    ix: int,
    iy: int,
) -> bool {
    order_after(layers, plan, layers[ix].0) matches Some(ox) && order_after(
        layers,
        plan,
        layers[iy].0,
    ) matches Some(oy) && (layers[ix].1 < layers[iy].1 ==> ox < oy) && (layers[ix].1
        == layers[iy].1 && ix < iy ==> ox <= oy)
}

/// Bringing a layer to the front makes it the only front layer, and keeps the
/// others in their order.
pub proof fn lemma_front_plan(
    layers: Seq<(u64, i32)>,
    target: u64,
    plan: Seq<(u64, i32)>,
    ix: int,
    iy: int,
)
    requires
        distinct_ids(layers),
        layers.len() < i32::MAX,
        is_front_plan(layers, target, plan),
        order_of(layers, target) is Some,
        0 <= ix < layers.len() && layers[ix].0 != target,
        0 <= iy < layers.len() && layers[iy].0 != target,
    ensures
        order_after(layers, plan, layers[ix].0) matches Some(ox) && order_after(
            layers,
            plan,
            target,
        ) matches Some(ot) && ot > ox,
        keeps_order(layers, plan, ix, iy),
{
    let x = layers[ix];
    let y = layers[iy];
    let rest = others(layers, target);
    lemma_others(layers, target);
    assert(layers.contains(x) && layers.contains(y));
    assert(rest.contains(x) && rest.contains(y));
    lemma_order_at(layers, ix);
    lemma_order_at(layers, iy);
    let current = order_of(layers, target)->0;
    let max = choose|max: i32|
        #![trigger is_greatest(rest, max)]
        is_greatest(rest, max) && if current > max {
            plan.len() == 0
        } else if max == i32::MAX {
            exists|sorted: Seq<(u64, i32)>| #[trigger]
                stable_sort_of(rest, sorted) && plan == front_renumbering(sorted, target, current)
        } else {
            plan == seq![(target, (max + 1) as i32)]
        };
    assert(rest[rest.index_of(x)].1 <= max && rest[rest.index_of(y)].1 <= max);
    if current > max {
    } else if max == i32::MAX {
        let sorted = choose|sorted: Seq<(u64, i32)>| #[trigger]
            stable_sort_of(rest, sorted) && plan == front_renumbering(sorted, target, current);
        lemma_stable_sort_members(rest, sorted);
        let n = sorted.len() as int;
        let numbered = renumbering(sorted, 0, n);
        if current != n {
            assert(plan.drop_last() =~= numbered);
        }
        assert(sorted.contains(x) && sorted.contains(y));
        let px = sorted.index_of(x);
        let py = sorted.index_of(y);
        assert(sorted[px].0 == x.0 && sorted[py].0 == y.0);
        lemma_renumbering(sorted, 0, n, x.0);
        lemma_renumbering(sorted, 0, n, y.0);
        lemma_renumbering(sorted, 0, n, target);
        assert forall|i: int| 0 <= i < n implies (#[trigger] sorted[i]).0 != target by {
            assert(sorted.contains(sorted[i]));
        }
        if x.1 < y.1 && px >= py {
            assert(px != py);
            assert(sorted[py].1 <= sorted[px].1);
        }
        if x.1 == y.1 && ix < iy {
            lemma_filter_order(layers, other_than(target), ix, iy);
            let (a, b) = choose|a: int, b: int|
                0 <= a < b < rest.len() && #[trigger] rest[a] == x && #[trigger] rest[b] == y;
            lemma_sort_keeps_order(rest, sorted, a, b, px, py);
        }
    } else {
        assert(plan.drop_last().len() == 0);
        assert(order_of(plan.drop_last(), x.0) is None);
        assert(order_of(plan.drop_last(), y.0) is None);
        assert(order_of(plan.drop_last(), target) is None);
    }
}

/// Numbering changes the order of every item that is beyond the numbers, so that
/// there is an update for it.
proof fn lemma_renumbering_moves(s: Seq<(u64, i32)>, first: int, n: int, i: int)
    requires
        0 <= i < n <= s.len(),
        0 <= first,
        first + n <= i32::MAX,
        s[i].1 == i32::MAX || s[i].1 == i32::MIN,
    ensures
        renumbering(s, first, n).len() > 0,
    decreases n,
{
    if i < n - 1 {
        lemma_renumbering_moves(s, first, n - 1, i);
    }
}

proof fn lemma_order_behind(target: u64, order: i32, rest: Seq<(u64, i32)>, id: u64)
    ensures
        order_of(seq![(target, order)] + rest, id) == if id == target {
            Some(order)
        } else {
            order_of(rest, id)
        },
    decreases rest.len(),
{
    let s = seq![(target, order)] + rest;
    if rest.len() > 0 {
        lemma_order_behind(target, order, rest.drop_last(), id);
        assert(s.drop_last() =~= seq![(target, order)] + rest.drop_last());
        assert(s.last() == rest.last());
    } else {
        assert(s.drop_last().len() == 0);
        assert(order_of(s.drop_last(), id) is None);
        assert(s.last() == (target, order));
    }
}

/// Sending a layer to the back makes it the only back layer, and keeps the
/// others in their order.
pub proof fn lemma_back_plan(
    layers: Seq<(u64, i32)>,
    target: u64,
    plan: Seq<(u64, i32)>,
    ix: int,
    iy: int,
)
    requires
        distinct_ids(layers),
        layers.len() < i32::MAX,
        is_back_plan(layers, target, plan),
        order_of(layers, target) is Some,
        0 <= ix < layers.len() && layers[ix].0 != target,
        0 <= iy < layers.len() && layers[iy].0 != target,
    ensures
        order_after(layers, plan, layers[ix].0) matches Some(ox) && order_after(
            layers,
            plan,
            target,
        ) matches Some(ot) && ot < ox,
        keeps_order(layers, plan, ix, iy),
{
    let x = layers[ix];
    let y = layers[iy];
    let rest = others(layers, target);
    lemma_others(layers, target);
    assert(layers.contains(x) && layers.contains(y));
    assert(rest.contains(x) && rest.contains(y));
    lemma_order_at(layers, ix);
    lemma_order_at(layers, iy);
    let current = order_of(layers, target)->0;
    let min = choose|min: i32|
        #![trigger is_least(rest, min)]
        is_least(rest, min) && if current < min {
            plan.len() == 0
        } else if min == i32::MIN {
            exists|sorted: Seq<(u64, i32)>| #[trigger]
                stable_sort_of(rest, sorted) && plan == back_renumbering(sorted, target, current)
        } else {
            plan == seq![(target, (min - 1) as i32)]
        };
    assert(rest[rest.index_of(x)].1 >= min && rest[rest.index_of(y)].1 >= min);
    if current < min {
    } else if min == i32::MIN {
        let sorted = choose|sorted: Seq<(u64, i32)>| #[trigger]
            stable_sort_of(rest, sorted) && plan == back_renumbering(sorted, target, current);
        lemma_stable_sort_members(rest, sorted);
        let n = sorted.len() as int;
        let numbered = renumbering(sorted, 1, n);
        lemma_order_behind(target, 0, numbered, x.0);
        lemma_order_behind(target, 0, numbered, y.0);
        lemma_order_behind(target, 0, numbered, target);
        assert(sorted.contains(x) && sorted.contains(y));
        let px = sorted.index_of(x);
        let py = sorted.index_of(y);
        assert(sorted[px].0 == x.0 && sorted[py].0 == y.0);
        lemma_renumbering(sorted, 1, n, x.0);
        lemma_renumbering(sorted, 1, n, y.0);
        lemma_renumbering(sorted, 1, n, target);
        assert forall|i: int| 0 <= i < n implies (#[trigger] sorted[i]).0 != target by {
            assert(sorted.contains(sorted[i]));
        }
        if x.1 < y.1 && px >= py {
            assert(px != py);
            assert(sorted[py].1 <= sorted[px].1);
        }
        if x.1 == y.1 && ix < iy {
            lemma_filter_order(layers, other_than(target), ix, iy);
            let (a, b) = choose|a: int, b: int|
                0 <= a < b < rest.len() && #[trigger] rest[a] == x && #[trigger] rest[b] == y;
            lemma_sort_keeps_order(rest, sorted, a, b, px, py);
        }
    } else {
        assert(plan.drop_last().len() == 0);
        assert(order_of(plan.drop_last(), x.0) is None);
        assert(order_of(plan.drop_last(), y.0) is None);
        assert(order_of(plan.drop_last(), target) is None);
    }
}

/// A known layer needs no update to come to the front exactly where it is in
/// front of all others already.
pub proof fn lemma_front_plan_is_needed(
    layers: Seq<(u64, i32)>,
    target: u64,
    plan: Seq<(u64, i32)>,
    current: i32,
)
    requires
        distinct_ids(layers),
        layers.len() < i32::MAX,
        is_front_plan(layers, target, plan),
        order_of(layers, target) == Some(current),
    ensures
        plan.len() == 0 <==> forall|i: int|
            0 <= i < layers.len() && (#[trigger] layers[i]).0 != target ==> layers[i].1 < current,
{
    lemma_others(layers, target);
    let rest = others(layers, target);
    assert forall|sorted: Seq<(u64, i32)>, k: int| #[trigger]
        stable_sort_of(rest, sorted) && 0 <= k < rest.len() && #[trigger] rest[k].1
            == i32::MAX implies front_renumbering(sorted, target, current).len() > 0 by {
        lemma_stable_sort_members(rest, sorted);
        assert(rest.contains(rest[k]));
        assert(sorted.contains(rest[k]));
        lemma_renumbering_moves(sorted, 0, sorted.len() as int, sorted.index_of(rest[k]));
    }
    if plan.len() == 0 {
        assert forall|i: int| 0 <= i < layers.len() && (#[trigger] layers[i]).0
            != target implies layers[i].1 < current by {
            assert(layers.contains(layers[i]));
            assert(rest.contains(layers[i]));
            let k = rest.index_of(layers[i]);
            assert(rest[k].1 == layers[i].1);
        }
    } else {
        let max = choose|max: i32| #[trigger] is_greatest(rest, max) && current <= max;
        let k = choose|k: int| 0 <= k < rest.len() && (#[trigger] rest[k]).1 == max;
        assert(rest.contains(rest[k]));
        let i = layers.index_of(rest[k]);
        assert(layers[i].1 == max && layers[i].0 != target);
    }
}

/// A known layer needs no update to go to the back exactly where it is behind
/// all others already.
pub proof fn lemma_back_plan_is_needed(
    layers: Seq<(u64, i32)>,
    target: u64,
    plan: Seq<(u64, i32)>,
    current: i32,
)
    requires
        distinct_ids(layers),
        layers.len() < i32::MAX,
        is_back_plan(layers, target, plan),
        order_of(layers, target) == Some(current),
    ensures
        plan.len() == 0 <==> forall|i: int|
            0 <= i < layers.len() && (#[trigger] layers[i]).0 != target ==> layers[i].1 > current,
{
    lemma_others(layers, target);
    let rest = others(layers, target);
    assert forall|sorted: Seq<(u64, i32)>, k: int| #[trigger]
        stable_sort_of(rest, sorted) && 0 <= k < rest.len() && #[trigger] rest[k].1
            == i32::MIN implies back_renumbering(sorted, target, current).len() > 0 by {
        lemma_stable_sort_members(rest, sorted);
        assert(rest.contains(rest[k]));
        assert(sorted.contains(rest[k]));
        lemma_renumbering_moves(sorted, 1, sorted.len() as int, sorted.index_of(rest[k]));
    }
    if plan.len() == 0 {
        assert forall|i: int| 0 <= i < layers.len() && (#[trigger] layers[i]).0
            != target implies layers[i].1 > current by {
            assert(layers.contains(layers[i]));
            assert(rest.contains(layers[i]));
            let k = rest.index_of(layers[i]);
            assert(rest[k].1 == layers[i].1);
        }
    } else {
        let min = choose|min: i32| #[trigger] is_least(rest, min) && current >= min;
        let k = choose|k: int| 0 <= k < rest.len() && (#[trigger] rest[k]).1 == min;
        assert(rest.contains(rest[k]));
        let i = layers.index_of(rest[k]);
        assert(layers[i].1 == min && layers[i].0 != target);
    }
}

/// Every update of a numbering changes the order of its item.
proof fn lemma_renumbering_item(s: Seq<(u64, i32)>, first: int, n: int, k: int)
    requires
        0 <= n <= s.len(),
        0 <= k < renumbering(s, first, n).len(),
    ensures
        exists|i: int|
            0 <= i < n && (#[trigger] s[i]).0 == renumbering(s, first, n)[k].0 && s[i].1
                != renumbering(s, first, n)[k].1,
    decreases n,
{
    if n > 0 {
        let before = renumbering(s, first, n - 1);
        if k < before.len() {
            lemma_renumbering_item(s, first, n - 1, k);
        } else {
            assert(s[n - 1].0 == renumbering(s, first, n)[k].0);
        }
    }
}

/// The updates that bring a layer to the front hold only layers whose order changes.
pub proof fn lemma_front_plan_changes(
    layers: Seq<(u64, i32)>,
    target: u64,
    plan: Seq<(u64, i32)>,
    k: int,
)
    requires
        distinct_ids(layers),
        layers.len() < i32::MAX,
        is_front_plan(layers, target, plan),
        0 <= k < plan.len(),
    ensures
        order_of(layers, plan[k].0) matches Some(order) && order != plan[k].1,
{
    lemma_others(layers, target);
    let rest = others(layers, target);
    let current = order_of(layers, target)->0;
    let max = choose|max: i32|
        #![trigger is_greatest(rest, max)]
        is_greatest(rest, max) && if current > max {
            plan.len() == 0
        } else if max == i32::MAX {
            exists|sorted: Seq<(u64, i32)>| #[trigger]
                stable_sort_of(rest, sorted) && plan == front_renumbering(sorted, target, current)
        } else {
            plan == seq![(target, (max + 1) as i32)]
        };
    if max == i32::MAX {
        let sorted = choose|sorted: Seq<(u64, i32)>| #[trigger]
            stable_sort_of(rest, sorted) && plan == front_renumbering(sorted, target, current);
        let n = sorted.len() as int;
        let numbered = renumbering(sorted, 0, n);
        if k < numbered.len() {
            lemma_renumbering_item(sorted, 0, n, k);
        }
        if k < numbered.len() {
            let i = choose|i: int|
                0 <= i < n && (#[trigger] sorted[i]).0 == numbered[k].0 && sorted[i].1
                    != numbered[k].1;
            lemma_stable_sort_members(rest, sorted);
            assert(sorted.contains(sorted[i]));
            assert(rest.contains(sorted[i]));
            assert(layers.contains(sorted[i]));
            lemma_order_at(layers, layers.index_of(sorted[i]));
        }
    }
}

/// The updates that send a layer to the back hold only layers whose order changes.
pub proof fn lemma_back_plan_changes(
    layers: Seq<(u64, i32)>,
    target: u64,
    plan: Seq<(u64, i32)>,
    k: int,
)
    requires
        distinct_ids(layers),
        layers.len() < i32::MAX,
        is_back_plan(layers, target, plan),
        0 <= k < plan.len(),
    ensures
        order_of(layers, plan[k].0) matches Some(order) && order != plan[k].1,
{
    lemma_others(layers, target);
    let rest = others(layers, target);
    let current = order_of(layers, target)->0;
    let min = choose|min: i32|
        #![trigger is_least(rest, min)]
        is_least(rest, min) && if current < min {
            plan.len() == 0
        } else if min == i32::MIN {
            exists|sorted: Seq<(u64, i32)>| #[trigger]
                stable_sort_of(rest, sorted) && plan == back_renumbering(sorted, target, current)
        } else {
            plan == seq![(target, (min - 1) as i32)]
        };
    if min == i32::MIN {
        let sorted = choose|sorted: Seq<(u64, i32)>| #[trigger]
            stable_sort_of(rest, sorted) && plan == back_renumbering(sorted, target, current);
        let n = sorted.len() as int;
        let numbered = renumbering(sorted, 1, n);
        let j = if current == 0 {
            k
        } else {
            k - 1
        };
        if j >= 0 {
            assert(plan[k] == numbered[j]);
            lemma_renumbering_item(sorted, 1, n, j);
        }
        if j >= 0 {
            let i = choose|i: int|
                0 <= i < n && (#[trigger] sorted[i]).0 == numbered[j].0 && sorted[i].1
                    != numbered[j].1;
            lemma_stable_sort_members(rest, sorted);
            assert(sorted.contains(sorted[i]));
            assert(rest.contains(sorted[i]));
            assert(layers.contains(sorted[i]));
            lemma_order_at(layers, layers.index_of(sorted[i]));
        }
    }
}

/// Bringing a layer to the front, or sending it to the back, touches no other layer
/// where there is room beyond the outermost one; what is unknown is not moved.
pub proof fn lemma_only_the_target_moves(
    layers: Seq<(u64, i32)>,
    target: u64,
    front: Seq<(u64, i32)>,
    back: Seq<(u64, i32)>,
)
    requires
        distinct_ids(layers),
        is_front_plan(layers, target, front),
        is_back_plan(layers, target, back),
    ensures
        (forall|i: int| 0 <= i < layers.len() ==> (#[trigger] layers[i]).1 < i32::MAX)
            ==> front.len() <= 1 && (front.len() == 1 ==> front[0].0 == target),
        (forall|i: int| 0 <= i < layers.len() ==> (#[trigger] layers[i]).1 > i32::MIN)
            ==> back.len() <= 1 && (back.len() == 1 ==> back[0].0 == target),
        order_of(layers, target) is None ==> front.len() == 0 && back.len() == 0,
{
    lemma_others(layers, target);
    let rest = others(layers, target);
    if forall|i: int| 0 <= i < layers.len() ==> (#[trigger] layers[i]).1 < i32::MAX {
        assert forall|max: i32| #[trigger] is_greatest(rest, max) implies max < i32::MAX by {
            let k = choose|k: int| 0 <= k < rest.len() && (#[trigger] rest[k]).1 == max;
            assert(rest.contains(rest[k]));
            assert(layers.contains(rest[k]));
            let i = layers.index_of(rest[k]);
            assert(layers[i].1 < i32::MAX);
        }
    }
    if forall|i: int| 0 <= i < layers.len() ==> (#[trigger] layers[i]).1 > i32::MIN {
        assert forall|min: i32| #[trigger] is_least(rest, min) implies min > i32::MIN by {
            let k = choose|k: int| 0 <= k < rest.len() && (#[trigger] rest[k]).1 == min;
            assert(rest.contains(rest[k]));
            assert(layers.contains(rest[k]));
            let i = layers.index_of(rest[k]);
            assert(layers[i].1 > i32::MIN);
        }
    }
}

} // verus!
