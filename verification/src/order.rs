//! Selecting rows and putting them in order.

use crate::rows::Row;
use vstd::prelude::*;

verus! {

/// A condition on rows.
pub trait Condition<T>: Sized {
    spec fn holds(self, row: T) -> bool;

    fn test(&self, row: &T) -> (result: bool)
        ensures
            result == self.holds(*row),
    ;
}

/// A condition as a predicate.
pub open spec fn predicate<T, C: Condition<T>>(condition: C) -> spec_fn(T) -> bool {
    |row: T| condition.holds(row)
}

/// The rows that meet a condition, in the order of the table.
pub open spec fn selected<T, C: Condition<T>>(rows: Seq<T>, condition: C) -> Seq<T> {
    rows.filter(predicate(condition))
}

/// A condition that all rows meet selects all of them.
pub proof fn lemma_all_selected<T, C: Condition<T>>(rows: Seq<T>, condition: C)
    requires
        forall|i: int| 0 <= i < rows.len() ==> condition.holds(#[trigger] rows[i]),
    ensures
        selected(rows, condition) == rows,
    decreases rows.len(),
{
    reveal(Seq::filter);
    if rows.len() > 0 {
        let rest = rows.drop_last();
        assert forall|i: int| 0 <= i < rest.len() implies condition.holds(#[trigger] rest[i]) by {
            assert(rest[i] == rows[i]);
        }
        lemma_all_selected(rest, condition);
        assert(condition.holds(rows[rows.len() - 1]));
        assert(rows =~= rest.push(rows.last()));
    }
}

/// Copies the rows that meet `condition`.
pub fn select<T: Row, C: Condition<T>>(rows: &Vec<T>, condition: &C) -> (result: Vec<T>)
    ensures
        result@ == selected(rows@, *condition),
{
    let mut result: Vec<T> = Vec::new();
    let mut i: usize = 0;
    proof {
        reveal(Seq::filter);
        assert(rows@.take(0) =~= Seq::<T>::empty());
    }
    while i < rows.len()
        invariant
            i <= rows.len(),
            result@ == selected(rows@.take(i as int), *condition),
        decreases rows.len() - i,
    {
        proof {
            assert(rows@.take(i + 1) =~= rows@.take(i as int).push(rows@[i as int]));
            rows@.take(i as int).lemma_filter_push(rows@[i as int], predicate(*condition));
        }
        if condition.test(&rows[i]) {
            result.push(rows[i].copy());
        }
        i += 1;
    }
    assert(rows@.take(i as int) =~= rows@);
    result
}

/// The order that rows are handed out in.
pub trait Order<T>: Sized {
    /// Whether `a` is handed out before `b`, wherever the two stand in the table.
    spec fn precedes(self, a: T, b: T) -> bool;

    fn test(&self, a: &T, b: &T) -> (result: bool)
        ensures
            result == self.precedes(*a, *b),
    ;

    /// No two rows precede each other.
    proof fn asymmetric(self, a: T, b: T)
        requires
            self.precedes(a, b),
        ensures
            !self.precedes(b, a),
    ;

    /// A row that comes no later than `b`, where `b` comes no later than `c`, comes no later
    /// than `c`.
    proof fn transitive(self, a: T, b: T, c: T)
        requires
            !self.precedes(b, a),
            !self.precedes(c, b),
        ensures
            !self.precedes(c, a),
    ;
}

/// `rows` with `row` behind all but the rows at the end that `row` precedes.
pub open spec fn placed<T, O: Order<T>>(rows: Seq<T>, row: T, order: O) -> Seq<T>
    decreases rows.len(),
{
    if rows.len() > 0 && order.precedes(row, rows.last()) {
        placed(rows.drop_last(), row, order).push(rows.last())
    } else {
        rows.push(row)
    }
}

/// `rows` in order. Rows of which neither precedes the other stay as they stand in the table.
pub open spec fn ordered<T, O: Order<T>>(rows: Seq<T>, order: O) -> Seq<T>
    decreases rows.len(),
{
    if rows.len() == 0 {
        rows
    } else {
        placed(ordered(rows.drop_last(), order), rows.last(), order)
    }
}

/// Whether no row stands behind one that it precedes.
pub open spec fn in_order<T, O: Order<T>>(rows: Seq<T>, order: O) -> bool {
    forall|i: int, j: int|
        0 <= i < j < rows.len() ==> !order.precedes(#[trigger] rows[j], #[trigger] rows[i])
}

proof fn lemma_placed_at<T, O: Order<T>>(rows: Seq<T>, row: T, order: O, at: int)
    requires
        0 <= at <= rows.len(),
        at > 0 ==> !order.precedes(row, rows[at - 1]),
        forall|j: int| at <= j < rows.len() ==> order.precedes(row, #[trigger] rows[j]),
    ensures
        placed(rows, row, order) == rows.insert(at, row),
    decreases rows.len(),
{
    if at < rows.len() {
        assert(order.precedes(row, rows[rows.len() - 1]));
        let rest = rows.drop_last();
        assert forall|j: int| at <= j < rest.len() implies order.precedes(
            row,
            #[trigger] rest[j],
        ) by {
            assert(rest[j] == rows[j]);
        }
        lemma_placed_at(rest, row, order, at);
        assert(rest.insert(at, row).push(rows.last()) =~= rows.insert(at, row));
    } else {
        assert(rows.insert(at, row) =~= rows.push(row));
    }
}

fn place<T, O: Order<T>>(rows: &mut Vec<T>, row: T, order: &O)
    ensures
        final(rows)@ == placed(old(rows)@, row, *order),
{
    let mut at: usize = rows.len();
    while at > 0 && order.test(&row, &rows[at - 1])
        invariant
            at <= rows.len(),
            forall|j: int| at <= j < rows.len() ==> order.precedes(row, #[trigger] rows@[j]),
        decreases at,
    {
        at -= 1;
    }
    proof {
        lemma_placed_at(rows@, row, *order, at as int);
    }
    rows.insert(at, row);
}

/// Puts `rows` in order.
pub fn arrange<T, O: Order<T>>(rows: Vec<T>, order: &O) -> (result: Vec<T>)
    ensures
        result@ == ordered(rows@, *order),
{
    let ghost all = rows@;
    let mut result: Vec<T> = Vec::new();
    for row in iter: rows
        invariant
            iter.seq() == all,
            result@ == ordered(all.take(iter.index() as int), *order),
    {
        proof {
            assert(all.take(iter.index() + 1).drop_last() =~= all.take(iter.index() as int));
        }
        place(&mut result, row, order);
    }
    assert(all.take(all.len() as int) =~= all);
    result
}

/// How many rows of `rows`, from the front, `row` is put behind.
spec fn place_of<T, O: Order<T>>(rows: Seq<T>, row: T, order: O) -> int
    decreases rows.len(),
{
    if rows.len() > 0 && order.precedes(row, rows.last()) {
        place_of(rows.drop_last(), row, order)
    } else {
        rows.len() as int
    }
}

proof fn lemma_place_of<T, O: Order<T>>(rows: Seq<T>, row: T, order: O)
    ensures
        ({
            let at = place_of(rows, row, order);
            &&& 0 <= at <= rows.len()
            &&& at > 0 ==> !order.precedes(row, rows[at - 1])
            &&& forall|j: int| at <= j < rows.len() ==> order.precedes(row, #[trigger] rows[j])
            &&& placed(rows, row, order) == rows.insert(at, row)
        }),
    decreases rows.len(),
{
    let at = place_of(rows, row, order);
    if rows.len() > 0 && order.precedes(row, rows.last()) {
        let rest = rows.drop_last();
        lemma_place_of(rest, row, order);
        assert forall|j: int| at <= j < rows.len() implies order.precedes(
            row,
            #[trigger] rows[j],
        ) by {
            if j < rest.len() {
                assert(rest[j] == rows[j]);
            }
        }
    }
    lemma_placed_at(rows, row, order, at);
}

proof fn lemma_placed_in_order<T, O: Order<T>>(rows: Seq<T>, row: T, order: O)
    requires
        in_order(rows, order),
    ensures
        in_order(placed(rows, row, order), order),
{
    let at = place_of(rows, row, order);
    lemma_place_of(rows, row, order);
    let result = placed(rows, row, order);
    assert forall|i: int, j: int| 0 <= i < j < result.len() implies !order.precedes(
        #[trigger] result[j],
        #[trigger] result[i],
    ) by {
        if j < at {
            assert(result[i] == rows[i] && result[j] == rows[j]);
        } else if j == at {
            assert(result[i] == rows[i] && result[j] == row);
            if i < at - 1 {
                assert(!order.precedes(rows[at - 1], rows[i]));
                order.transitive(rows[i], rows[at - 1], row);
            }
        } else if i == at {
            assert(result[i] == row && result[j] == rows[j - 1]);
            order.asymmetric(row, rows[j - 1]);
        } else if i < at {
            assert(result[i] == rows[i] && result[j] == rows[j - 1]);
        } else {
            assert(result[i] == rows[i - 1] && result[j] == rows[j - 1]);
        }
    }
}

/// Rows are handed out in the order asked for.
pub proof fn law_ordered_rows_are_in_order<T, O: Order<T>>(rows: Seq<T>, order: O)
    ensures
        in_order(ordered(rows, order), order),
    decreases rows.len(),
{
    if rows.len() > 0 {
        law_ordered_rows_are_in_order(rows.drop_last(), order);
        lemma_placed_in_order(ordered(rows.drop_last(), order), rows.last(), order);
    }
}

/// Ordering neither loses nor adds a row.
pub proof fn law_ordering_keeps_every_row<T, O: Order<T>>(rows: Seq<T>, order: O)
    ensures
        ordered(rows, order).to_multiset() == rows.to_multiset(),
        ordered(rows, order).len() == rows.len(),
    decreases rows.len(),
{
    broadcast use vstd::seq_lib::group_to_multiset_ensures;

    if rows.len() > 0 {
        let rest = ordered(rows.drop_last(), order);
        law_ordering_keeps_every_row(rows.drop_last(), order);
        lemma_place_of(rest, rows.last(), order);
        assert(rows =~= rows.drop_last().push(rows.last()));
        assert(rest.insert(place_of(rest, rows.last(), order), rows.last()).to_multiset()
            =~= rest.to_multiset().insert(rows.last()));
    }
}

/// What holds of any two rows, in either order, holds of them once they are ordered.
pub proof fn lemma_ordered_pairwise<T, O: Order<T>>(
    rows: Seq<T>,
    order: O,
    apart: spec_fn(T, T) -> bool,
)
    requires
        forall|a: T, b: T| #[trigger] apart(a, b) ==> apart(b, a),
        forall|i: int, j: int|
            0 <= i < j < rows.len() ==> apart(#[trigger] rows[i], #[trigger] rows[j]),
    ensures
        forall|i: int, j: int|
            0 <= i < j < rows.len() ==> apart(
                #[trigger] ordered(rows, order)[i],
                #[trigger] ordered(rows, order)[j],
            ),
    decreases rows.len(),
{
    if rows.len() > 0 {
        let rest = rows.drop_last();
        let last = rows.last();
        assert forall|i: int, j: int| 0 <= i < j < rest.len() implies apart(
            #[trigger] rest[i],
            #[trigger] rest[j],
        ) by {
            assert(rest[i] == rows[i] && rest[j] == rows[j]);
        }
        lemma_ordered_pairwise(rest, order, apart);
        let done = ordered(rest, order);
        law_ordering_keeps_every_row(rest, order);
        lemma_place_of(done, last, order);
        let at = place_of(done, last, order);
        let result = ordered(rows, order);
        assert forall|k: int| 0 <= k < done.len() implies apart(#[trigger] done[k], last) by {
            rest.to_multiset_ensures();
            done.to_multiset_ensures();
            assert(done.contains(done[k]));
            assert(rest.to_multiset().count(done[k]) > 0);
            let i = choose|i: int| 0 <= i < rest.len() && rest[i] == done[k];
            assert(apart(rows[i], rows[rows.len() - 1]));
        }
        assert forall|i: int, j: int| 0 <= i < j < rows.len() implies apart(
            #[trigger] result[i],
            #[trigger] result[j],
        ) by {
            if i != at && j != at {
                let a = if i < at { i } else { i - 1 };
                let b = if j < at { j } else { j - 1 };
                assert(result[i] == done[a] && result[j] == done[b]);
            } else if j == at {
                assert(result[i] == done[i]);
            } else {
                assert(result[j] == done[j - 1]);
                assert(apart(done[j - 1], last));
            }
        }
    }
}

/// A change of the rows that leaves their order alone can come before the ordering or after it.
pub proof fn lemma_ordered_map<T, O: Order<T>>(rows: Seq<T>, order: O, change: spec_fn(T) -> T)
    requires
        forall|a: T, b: T|
            order.precedes(#[trigger] change(a), #[trigger] change(b)) == order.precedes(a, b),
    ensures
        ordered(rows.map_values(change), order) == ordered(rows, order).map_values(change),
    decreases rows.len(),
{
    let changed = rows.map_values(change);
    if rows.len() > 0 {
        lemma_ordered_map(rows.drop_last(), order, change);
        assert(changed.drop_last() =~= rows.drop_last().map_values(change));
        lemma_placed_map(ordered(rows.drop_last(), order), rows.last(), order, change);
    } else {
        assert(changed =~= ordered(rows, order).map_values(change));
    }
}

proof fn lemma_placed_map<T, O: Order<T>>(
    rows: Seq<T>,
    row: T,
    order: O,
    change: spec_fn(T) -> T,
)
    requires
        forall|a: T, b: T|
            order.precedes(#[trigger] change(a), #[trigger] change(b)) == order.precedes(a, b),
    ensures
        placed(rows.map_values(change), change(row), order) == placed(rows, row, order).map_values(
            change,
        ),
    decreases rows.len(),
{
    let changed = rows.map_values(change);
    if rows.len() > 0 && order.precedes(row, rows.last()) {
        lemma_placed_map(rows.drop_last(), row, order, change);
        assert(changed.last() == change(rows.last()));
        assert(changed.drop_last() =~= rows.drop_last().map_values(change));
    } else if rows.len() > 0 {
        assert(changed.last() == change(rows.last()));
    }
    assert(placed(changed, change(row), order) =~= placed(rows, row, order).map_values(change));
}

/// Where the rows come from once they are ordered: `from` names each place of the table once,
/// and of rows that are tied the one that stands first in the table comes first.
pub proof fn lemma_ordered_from<T, O: Order<T>>(rows: Seq<T>, order: O) -> (from: Seq<int>)
    ensures
        ordered(rows, order).len() == rows.len(),
        from.len() == rows.len(),
        forall|k: int|
            0 <= k < from.len() ==> 0 <= #[trigger] from[k] < rows.len() && ordered(rows, order)[k]
                == rows[from[k]],
        forall|k: int, l: int|
            0 <= k < l < from.len() ==> #[trigger] from[k] != #[trigger] from[l] && !order.precedes(
                rows[from[l]],
                rows[from[k]],
            ) && (order.precedes(rows[from[k]], rows[from[l]]) || from[k] < from[l]),
        forall|i: int| 0 <= i < rows.len() ==> #[trigger] from.contains(i),
    decreases rows.len(),
{
    law_ordered_rows_are_in_order(rows, order);
    law_ordering_keeps_every_row(rows, order);
    if rows.len() == 0 {
        Seq::empty()
    } else {
        let rest = rows.drop_last();
        let last = rows.last();
        let n = rest.len() as int;
        let done = ordered(rest, order);
        let result = ordered(rows, order);
        let before = lemma_ordered_from(rest, order);
        lemma_place_of(done, last, order);
        let at = place_of(done, last, order);
        let from = before.insert(at, n);
        assert forall|k: int| 0 <= k < from.len() implies 0 <= #[trigger] from[k] < rows.len()
            && result[k] == rows[from[k]] by {
            if k < at {
                assert(from[k] == before[k]);
            } else if k > at {
                assert(from[k] == before[k - 1]);
            }
        }
        assert forall|k: int, l: int| 0 <= k < l < from.len() implies #[trigger] from[k]
            != #[trigger] from[l] && !order.precedes(rows[from[l]], rows[from[k]]) && (
        order.precedes(rows[from[k]], rows[from[l]]) || from[k] < from[l]) by {
            assert(result[k] == rows[from[k]] && result[l] == rows[from[l]]);
            if k != at && l != at {
                let a = if k < at { k } else { k - 1 };
                let b = if l < at { l } else { l - 1 };
                assert(from[k] == before[a] && from[l] == before[b]);
                assert(rest[before[a]] == rows[before[a]] && rest[before[b]] == rows[before[b]]);
            } else if l == at {
                assert(from[k] == before[k]);
            } else {
                assert(from[l] == before[l - 1]);
                assert(order.precedes(last, done[l - 1]));
            }
        }
        assert forall|i: int| 0 <= i < rows.len() implies #[trigger] from.contains(i) by {
            if i < n {
                assert(before.contains(i));
                let k = choose|k: int| 0 <= k < before.len() && before[k] == i;
                if k < at {
                    assert(from[k] == i);
                } else {
                    assert(from[k + 1] == i);
                }
            } else {
                assert(from[at] == n);
            }
        }
        from
    }
}

/// Whether neither of the two rows precedes the other.
pub open spec fn tied<T, O: Order<T>>(order: O, row: T) -> spec_fn(T) -> bool {
    |other: T| !order.precedes(row, other) && !order.precedes(other, row)
}

proof fn lemma_placed_stable<T, O: Order<T>>(rows: Seq<T>, row: T, order: O, like: T)
    ensures
        placed(rows, row, order).filter(tied(order, like)) == rows.push(row).filter(
            tied(order, like),
        ),
    decreases rows.len(),
{
    if rows.len() > 0 && order.precedes(row, rows.last()) {
        let rest = rows.drop_last();
        let last = rows.last();
        let p = tied(order, like);
        lemma_placed_stable(rest, row, order, like);
        placed(rest, row, order).lemma_filter_push(last, p);
        rest.lemma_filter_push(row, p);
        rest.lemma_filter_push(last, p);
        rows.lemma_filter_push(row, p);
        assert(rows =~= rest.push(last));
        if p(row) && p(last) {
            order.transitive(last, like, row);
        }
    }
}

/// Rows that are tied come out in the order in which they stand in the table.
pub proof fn law_ordering_is_stable<T, O: Order<T>>(rows: Seq<T>, order: O, like: T)
    ensures
        ordered(rows, order).filter(tied(order, like)) == rows.filter(tied(order, like)),
    decreases rows.len(),
{
    if rows.len() > 0 {
        let rest = rows.drop_last();
        let p = tied(order, like);
        law_ordering_is_stable(rest, order, like);
        lemma_placed_stable(ordered(rest, order), rows.last(), order, like);
        ordered(rest, order).lemma_filter_push(rows.last(), p);
        rest.lemma_filter_push(rows.last(), p);
        assert(rows =~= rest.push(rows.last()));
    }
}

} // verus!
