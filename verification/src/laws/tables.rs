//! Which tables the commands touch, and how selections follow the changes.

use crate::command::Command;
use crate::order::{
    law_ordering_keeps_every_row, ordered, predicate, selected, Condition, Order,
};
use crate::persistence::ids_of;
use crate::tables::TablesView;
use vstd::prelude::*;

verus! {

/// Each command changes one table at most.
pub proof fn law_commands_touch_one_table(command: Command, before: TablesView)
    ensures
        ({
            let after = command.applied(before);
            &&& after.resources == before.resources
            &&& (command is InsertService || command is DeleteService || after.services
                == before.services)
            &&& (command is InsertLog || after.logs == before.logs)
            &&& (command is InsertSecret || after.secrets == before.secrets)
            &&& (command is InsertDeployment || command is UpdateDeployment || command is SetAddress
                || command is SetIsNext || command is CleanupInvalidStates || after.deployments
                == before.deployments)
        }),
{
}

/// A command other than the one that adds a deployment leaves the deployments in their places,
/// with their identifiers and services.
pub proof fn law_deployments_keep_their_identity(command: Command, before: TablesView)
    requires
        !(command is InsertDeployment),
    ensures
        ({
            let after = command.applied(before);
            &&& ids_of(after.deployments) == ids_of(before.deployments)
            &&& forall|i: int|
                0 <= i < before.deployments.len() ==> (#[trigger] after.deployments[i]).service_id
                    == before.deployments[i].service_id
        }),
{
    let after = command.applied(before);
    assert(ids_of(after.deployments) =~= ids_of(before.deployments));
}

/// What a selection holds: the rows of the table that meet the condition, and no others.
pub proof fn lemma_selected<T, C: Condition<T>>(rows: Seq<T>, condition: C)
    ensures
        forall|i: int|
            0 <= i < selected(rows, condition).len() ==> condition.holds(
                #[trigger] selected(rows, condition)[i],
            ) && rows.contains(selected(rows, condition)[i]),
        forall|i: int|
            0 <= i < rows.len() && condition.holds(#[trigger] rows[i]) ==> selected(
                rows,
                condition,
            ).contains(rows[i]),
{
    let p = predicate(condition);
    let found = selected(rows, condition);
    assert forall|i: int| 0 <= i < found.len() implies condition.holds(#[trigger] found[i])
        && rows.contains(found[i]) by {
        rows.lemma_filter_pred(p, i);
        rows.lemma_filter_contains_rev(p, found[i]);
    }
    assert forall|i: int|
        0 <= i < rows.len() && condition.holds(#[trigger] rows[i]) implies found.contains(
        rows[i],
    ) by {
        rows.lemma_filter_contains(p, i);
    }
}

/// A row is selected where it stands in the table and meets the condition.
pub proof fn lemma_selected_contains<T, C: Condition<T>>(rows: Seq<T>, condition: C, row: T)
    ensures
        selected(rows, condition).contains(row) <==> rows.contains(row) && condition.holds(row),
{
    let found = selected(rows, condition);
    lemma_selected(rows, condition);
    if found.contains(row) {
        let i = choose|i: int| 0 <= i < found.len() && found[i] == row;
        assert(condition.holds(found[i]));
    }
    if rows.contains(row) && condition.holds(row) {
        let i = choose|i: int| 0 <= i < rows.len() && rows[i] == row;
        assert(condition.holds(rows[i]));
    }
}

/// What holds of any two rows of a table holds of any two that are selected.
pub proof fn lemma_selected_pairwise<T, C: Condition<T>>(
    rows: Seq<T>,
    condition: C,
    apart: spec_fn(T, T) -> bool,
)
    requires
        forall|i: int, j: int|
            0 <= i < j < rows.len() ==> apart(#[trigger] rows[i], #[trigger] rows[j]),
    ensures
        forall|i: int, j: int|
            0 <= i < j < selected(rows, condition).len() ==> apart(
                #[trigger] selected(rows, condition)[i],
                #[trigger] selected(rows, condition)[j],
            ),
    decreases rows.len(),
{
    reveal(Seq::filter);
    if rows.len() > 0 {
        let rest = rows.drop_last();
        let found = selected(rest, condition);
        assert forall|i: int, j: int| 0 <= i < j < rest.len() implies apart(
            #[trigger] rest[i],
            #[trigger] rest[j],
        ) by {
            assert(rest[i] == rows[i] && rest[j] == rows[j]);
        }
        lemma_selected_pairwise(rest, condition, apart);
        assert forall|k: int| 0 <= k < found.len() implies apart(
            #[trigger] found[k],
            rows.last(),
        ) by {
            assert(found.contains(found[k]));
            lemma_selected_contains(rest, condition, found[k]);
            let i = choose|i: int| 0 <= i < rest.len() && rest[i] == found[k];
            assert(apart(rows[i], rows[rows.len() - 1]));
        }
    }
}

/// Ordering keeps the rows.
pub proof fn lemma_ordered_contains<T, O: Order<T>>(rows: Seq<T>, order: O, row: T)
    ensures
        ordered(rows, order).contains(row) <==> rows.contains(row),
{
    law_ordering_keeps_every_row(rows, order);
    rows.to_multiset_ensures();
    ordered(rows, order).to_multiset_ensures();
    assert(rows.contains(row) <==> rows.to_multiset().count(row) > 0);
    assert(ordered(rows, order).contains(row) <==> ordered(rows, order).to_multiset().count(row)
        > 0);
}

/// Selecting before a change of the rows, or after it, is the same where the change does not
/// touch what the condition looks at.
pub proof fn lemma_filter_map_commute<T>(
    rows: Seq<T>,
    p: spec_fn(T) -> bool,
    change: spec_fn(T) -> T,
)
    requires
        forall|row: T| #[trigger] p(change(row)) == p(row),
    ensures
        rows.map_values(change).filter(p) == rows.filter(p).map_values(change),
    decreases rows.len(),
{
    reveal(Seq::filter);
    if rows.len() > 0 {
        let rest = rows.drop_last();
        lemma_filter_map_commute(rest, p, change);
        assert(rows.map_values(change).drop_last() =~= rest.map_values(change));
        assert(rows.map_values(change).last() == change(rows.last()));
        assert(p(change(rows.last())) == p(rows.last()));
        if p(rows.last()) {
            assert(rest.filter(p).push(rows.last()).map_values(change) =~= rest.filter(
                p,
            ).map_values(change).push(change(rows.last())));
        }
    } else {
        assert(rows.map_values(change) =~= rows);
        assert(rows.filter(p).map_values(change) =~= rows);
    }
}

/// A change that leaves each selected row as it is, and brings none in, leaves the selection as
/// it is.
pub proof fn lemma_filter_map_unchanged<T>(
    rows: Seq<T>,
    p: spec_fn(T) -> bool,
    change: spec_fn(T) -> T,
)
    requires
        forall|row: T| #[trigger] p(change(row)) == p(row),
        forall|row: T| #[trigger] p(row) ==> change(row) == row,
    ensures
        rows.map_values(change).filter(p) == rows.filter(p),
{
    broadcast use vstd::seq_lib::group_filter_ensures;

    lemma_filter_map_commute(rows, p, change);
    let found = rows.filter(p);
    assert forall|i: int| 0 <= i < found.len() implies change(found[i]) == #[trigger] found[i] by {
        assert(p(found[i]));
    }
    assert(found.map_values(change) =~= found);
}

/// Selecting twice is selecting once, by both conditions.
pub proof fn lemma_filter_filter<T>(
    rows: Seq<T>,
    p: spec_fn(T) -> bool,
    q: spec_fn(T) -> bool,
    both: spec_fn(T) -> bool,
)
    requires
        forall|row: T| #[trigger] both(row) == (p(row) && q(row)),
    ensures
        rows.filter(p).filter(q) == rows.filter(both),
    decreases rows.len(),
{
    reveal(Seq::filter);
    if rows.len() > 0 {
        let rest = rows.drop_last();
        let last = rows.last();
        lemma_filter_filter(rest, p, q, both);
        assert(both(last) == (p(last) && q(last)));
        rest.filter(p).lemma_filter_push(last, q);
    }
}

/// Conditions that agree on all rows of a table select the same of them.
pub proof fn lemma_filter_agree<T>(
    rows: Seq<T>,
    p: spec_fn(T) -> bool,
    q: spec_fn(T) -> bool,
)
    requires
        forall|i: int| 0 <= i < rows.len() ==> p(#[trigger] rows[i]) == q(rows[i]),
    ensures
        rows.filter(p) == rows.filter(q),
    decreases rows.len(),
{
    reveal(Seq::filter);
    if rows.len() > 0 {
        let rest = rows.drop_last();
        assert forall|i: int| 0 <= i < rest.len() implies p(#[trigger] rest[i]) == q(rest[i]) by {
            assert(rest[i] == rows[i]);
        }
        lemma_filter_agree(rest, p, q);
        assert(p(rows[rows.len() - 1]) == q(rows[rows.len() - 1]));
    }
}

} // verus!
