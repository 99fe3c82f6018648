//! Laws of handing out deployments where identifiers are unique: what is listed among all is what
//! is found by its identifier.

use crate::command::Command;
use crate::ids::{Timestamp, Ulid, Uuid};
use crate::laws::deployments::{
    deployment_with_id, ids_are_unique, is_linked, law_all_building_deployments,
    law_all_runnable_deployments, law_building_deployment, law_ids_stay_unique,
    law_runnable_deployment, law_runnable_or_building, law_stopped_deployment_is_not_active,
    law_update_is_read_back, other_than, updated_link,
};
use crate::laws::services::service_ids_are_unique;
use crate::laws::tables::{lemma_selected, lemma_selected_contains, lemma_selected_pairwise};
use crate::order::{
    law_ordering_keeps_every_row, lemma_ordered_pairwise, ordered, selected, Condition,
};
use crate::persistence::ids_of;
use crate::query::{first_row, BuildingQuery, DeploymentQuery, NewestFirst, RunnableQuery};
use crate::rows::{Deployment, DeploymentBuilding, DeploymentRunnable, Service, State};
use crate::tables::{joined, joined_with, Joined, ServiceWithId, TablesView};
use vstd::prelude::*;

verus! {

/// Whether neither two deployments nor two services have the same identifier.
pub open spec fn all_ids_are_unique(tables: TablesView) -> bool {
    ids_are_unique(tables) && service_ids_are_unique(tables)
}

/// A deployment is found by its identifier.
pub proof fn law_deployment_is_found_by_its_id(tables: TablesView, row: Deployment)
    requires
        ids_are_unique(tables),
        tables.deployments.contains(row),
    ensures
        deployment_with_id(tables, row.id) == Some(row),
{
    let query = DeploymentQuery::WithId { id: row.id };
    let found = query.rows(tables);
    lemma_selected_contains(tables.deployments, query, row);
    assert(found.len() > 0);
    assert(found.contains(found[0]));
    lemma_selected_contains(tables.deployments, query, found[0]);
    lemma_same_deployment(tables, row, found[0]);
}

proof fn lemma_same_deployment(tables: TablesView, a: Deployment, b: Deployment)
    requires
        ids_are_unique(tables),
        tables.deployments.contains(a),
        tables.deployments.contains(b),
        a.id == b.id,
    ensures
        a == b,
{
    let rows = tables.deployments;
    let i = choose|i: int| 0 <= i < rows.len() && rows[i] == a;
    let j = choose|j: int| 0 <= j < rows.len() && rows[j] == b;
    if i < j {
        assert(rows[i].id != rows[j].id);
    } else if j < i {
        assert(rows[j].id != rows[i].id);
    }
}

proof fn lemma_same_link(tables: TablesView, a: Joined, b: Joined)
    requires
        all_ids_are_unique(tables),
        is_linked(tables, a),
        is_linked(tables, b),
        a.deployment.id == b.deployment.id,
    ensures
        a == b,
{
    lemma_same_deployment(tables, a.deployment, b.deployment);
    let rows = tables.services;
    let i = choose|i: int| 0 <= i < rows.len() && rows[i] == a.service;
    let j = choose|j: int| 0 <= j < rows.len() && rows[j] == b.service;
    if i < j {
        assert(rows[i].id != rows[j].id);
    } else if j < i {
        assert(rows[j].id != rows[i].id);
    }
}

/// The active deployment of a service is running, belongs to the service, is the one found by its
/// identifier and is among the active deployments; there is none only where none is active.
/// Several running deployments are no error: one of them is the active one.
pub proof fn law_active_deployment_is_found_by_its_id(tables: TablesView, service_id: Ulid)
    requires
        ids_are_unique(tables),
    ensures
        ({
            let rows = (DeploymentQuery::Active { service_id }).rows(tables);
            match first_row(rows) {
                Some(row) => {
                    &&& row.service_id == service_id
                    &&& row.state == State::Running
                    &&& deployment_with_id(tables, row.id) == Some(row)
                    &&& ids_of(rows).contains(row.id)
                },
                None => ids_of(rows) == Seq::<Uuid>::empty(),
            }
        }),
{
    let query = DeploymentQuery::Active { service_id };
    let rows = query.rows(tables);
    if rows.len() > 0 {
        assert(rows.contains(rows[0]));
        lemma_selected_contains(tables.deployments, query, rows[0]);
        law_deployment_is_found_by_its_id(tables, rows[0]);
        assert(ids_of(rows)[0] == rows[0].id);
    }
}

/// A deployment whose service is known is found by its identifier, to be started, where it is
/// running, was stopped or is completed; among all that are handed out it is listed where it is
/// running.
pub proof fn law_runnable_deployment_is_found(tables: TablesView, link: Joined)
    requires
        all_ids_are_unique(tables),
        is_linked(tables, link),
    ensures
        first_row((RunnableQuery::WithId { id: link.deployment.id }).rows(tables))
            == if link.deployment.state.is_runnable() {
            Some(link.as_runnable())
        } else {
            None
        },
        RunnableQuery::All.rows(tables).contains(link.as_runnable()) <==> link.deployment.state
            == State::Running,
{
    let query = RunnableQuery::WithId { id: link.deployment.id };
    let own = query.joined_rows(tables);
    law_runnable_deployment(tables, link.deployment.id);
    law_all_runnable_deployments(tables);
    assert(own.contains(link) <==> link.deployment.state.is_runnable());
    if own.len() > 0 {
        assert(own.contains(own[0]));
        lemma_same_link(tables, link, own[0]);
    }
    let all = RunnableQuery::All.joined_rows(tables);
    let rows = RunnableQuery::All.rows(tables);
    if link.deployment.state == State::Running {
        assert(all.contains(link));
        let i = choose|i: int| 0 <= i < all.len() && all[i] == link;
        assert(rows[i] == link.as_runnable());
    }
    if rows.contains(link.as_runnable()) {
        let i = choose|i: int| 0 <= i < rows.len() && rows[i] == link.as_runnable();
        assert(all.contains(all[i]));
        lemma_same_link(tables, link, all[i]);
    }
}

/// Each deployment that is listed among all running ones is the one found by its identifier.
pub proof fn law_listed_runnable_deployment_is_found(tables: TablesView, row: DeploymentRunnable)
    requires
        all_ids_are_unique(tables),
        RunnableQuery::All.rows(tables).contains(row),
    ensures
        first_row((RunnableQuery::WithId { id: row.id }).rows(tables)) == Some(row),
{
    let link = lemma_link_of_runnable(tables, row);
    law_runnable_deployment_is_found(tables, link);
}

proof fn lemma_link_of_runnable(tables: TablesView, row: DeploymentRunnable) -> (link: Joined)
    requires
        RunnableQuery::All.rows(tables).contains(row),
    ensures
        is_linked(tables, link),
        link.deployment.state == State::Running,
        row == link.as_runnable(),
{
    let rows = RunnableQuery::All.rows(tables);
    let all = RunnableQuery::All.joined_rows(tables);
    let i = choose|i: int| 0 <= i < rows.len() && rows[i] == row;
    law_all_runnable_deployments(tables);
    assert(all.contains(all[i]));
    all[i]
}

/// A deployment is found by its identifier, to be built again, exactly where it is listed under
/// it among all that are being built; it cannot be started then.
pub proof fn law_building_deployment_is_listed(tables: TablesView, id: Uuid)
    requires
        all_ids_are_unique(tables),
    ensures
        forall|row: DeploymentBuilding|
            first_row((BuildingQuery::WithId { id }).rows(tables)) == Some(row) <==> (
            #[trigger] BuildingQuery::All.rows(tables).contains(row) && row.id == id),
        first_row((BuildingQuery::WithId { id }).rows(tables)) is Some ==> first_row(
            (RunnableQuery::WithId { id }).rows(tables),
        ) is None,
{
    let query = BuildingQuery::WithId { id };
    let own = query.joined_rows(tables);
    let all = BuildingQuery::All.joined_rows(tables);
    let rows = BuildingQuery::All.rows(tables);
    law_building_deployment(tables, id);
    law_all_building_deployments(tables);
    law_runnable_or_building(tables, id);
    assert forall|row: DeploymentBuilding|
        first_row(query.rows(tables)) == Some(row) <==> (#[trigger] rows.contains(row) && row.id
            == id) by {
        if first_row(query.rows(tables)) == Some(row) {
            assert(own.contains(own[0]));
            assert(all.contains(own[0]));
            let i = choose|i: int| 0 <= i < all.len() && all[i] == own[0];
            assert(rows[i] == row);
        }
        if rows.contains(row) && row.id == id {
            let i = choose|i: int| 0 <= i < rows.len() && rows[i] == row;
            assert(all.contains(all[i]));
            assert(own.contains(all[i]));
            assert(own.contains(own[0]));
            lemma_same_link(tables, all[i], own[0]);
        }
    }
}

spec fn other_deployment() -> spec_fn(Joined, Joined) -> bool {
    |a: Joined, b: Joined| a.deployment.id != b.deployment.id
}

proof fn lemma_joined_once(deployments: Seq<Deployment>, services: Seq<Service>)
    requires
        forall|i: int, j: int|
            0 <= i < j < deployments.len() ==> (#[trigger] deployments[i]).id != (
            #[trigger] deployments[j]).id,
        forall|i: int, j: int|
            0 <= i < j < services.len() ==> (#[trigger] services[i]).id != (
            #[trigger] services[j]).id,
    ensures
        forall|i: int, j: int|
            0 <= i < j < joined(deployments, services).len() ==> other_deployment()(
                #[trigger] joined(deployments, services)[i],
                #[trigger] joined(deployments, services)[j],
            ),
        forall|i: int|
            0 <= i < joined(deployments, services).len() ==> deployments.contains(
                (#[trigger] joined(deployments, services)[i]).deployment,
            ),
    decreases deployments.len(),
{
    if deployments.len() > 0 {
        let rest = deployments.drop_last();
        let last = deployments.last();
        let front = joined(rest, services);
        let back = joined_with(last, services);
        let all = joined(deployments, services);
        let matching = ServiceWithId { id: last.service_id };
        let found = selected(services, matching);
        lemma_joined_once(rest, services);
        lemma_selected(services, matching);
        lemma_selected_pairwise(services, matching, |a: Service, b: Service| a.id != b.id);
        assert(found.len() <= 1) by {
            if found.len() > 1 {
                assert(matching.holds(found[0]) && matching.holds(found[1]));
                assert(found[0].id != found[1].id);
            }
        }
        assert forall|i: int| 0 <= i < all.len() implies deployments.contains(
            (#[trigger] all[i]).deployment,
        ) by {
            if i < front.len() {
                assert(all[i] == front[i]);
                let k = choose|k: int| 0 <= k < rest.len() && rest[k] == front[i].deployment;
                assert(deployments[k] == all[i].deployment);
            } else {
                assert(all[i] == back[i - front.len()]);
                assert(deployments[rest.len() as int] == all[i].deployment);
            }
        }
        assert forall|i: int, j: int| 0 <= i < j < all.len() implies other_deployment()(
            #[trigger] all[i],
            #[trigger] all[j],
        ) by {
            assert(all[i] == front[i]);
            if j < front.len() {
                assert(all[j] == front[j]);
            } else {
                assert(all[j] == back[j - front.len()]);
                let k = choose|k: int| 0 <= k < rest.len() && rest[k] == front[i].deployment;
                assert(deployments[k].id != deployments[rest.len() as int].id);
            }
        }
    }
}

/// No deployment is listed twice, neither among all running ones nor among all that are being
/// built.
pub proof fn law_deployments_are_listed_once(tables: TablesView)
    requires
        all_ids_are_unique(tables),
    ensures
        forall|i: int, j: int|
            0 <= i < j < RunnableQuery::All.rows(tables).len() ==> (
            #[trigger] RunnableQuery::All.rows(tables)[i]).id != (
            #[trigger] RunnableQuery::All.rows(tables)[j]).id,
        forall|i: int, j: int|
            0 <= i < j < BuildingQuery::All.rows(tables).len() ==> (
            #[trigger] BuildingQuery::All.rows(tables)[i]).id != (
            #[trigger] BuildingQuery::All.rows(tables)[j]).id,
{
    let links = joined(tables.deployments, tables.services);
    lemma_joined_once(tables.deployments, tables.services);
    lemma_selected_pairwise(links, RunnableQuery::All, other_deployment());
    lemma_selected_pairwise(links, BuildingQuery::All, other_deployment());
    let runnable = selected(links, RunnableQuery::All);
    let building = selected(links, BuildingQuery::All);
    lemma_ordered_pairwise(runnable, NewestFirst, other_deployment());
    lemma_ordered_pairwise(building, NewestFirst, other_deployment());
    law_ordering_keeps_every_row(runnable, NewestFirst);
    law_ordering_keeps_every_row(building, NewestFirst);
    let runnable = ordered(runnable, NewestFirst);
    let building = ordered(building, NewestFirst);
    assert forall|i: int, j: int| 0 <= i < j < RunnableQuery::All.rows(tables).len() implies (
    #[trigger] RunnableQuery::All.rows(tables)[i]).id != (
    #[trigger] RunnableQuery::All.rows(tables)[j]).id by {
        assert(other_deployment()(runnable[i], runnable[j]));
    }
    assert forall|i: int, j: int| 0 <= i < j < BuildingQuery::All.rows(tables).len() implies (
    #[trigger] BuildingQuery::All.rows(tables)[i]).id != (
    #[trigger] BuildingQuery::All.rows(tables)[j]).id by {
        assert(other_deployment()(building[i], building[j]));
    }
}

/// A deployment that was stopped leaves the list of all running ones, from which nothing else
/// goes and to which nothing comes.
pub proof fn law_stopped_deployment_is_not_listed(before: TablesView, id: Uuid, now: Timestamp)
    ensures
        ({
            let after = Command::stopping(id, now).applied(before);
            forall|row: DeploymentRunnable| #[trigger]
                RunnableQuery::All.rows(after).contains(row) <==> RunnableQuery::All.rows(
                    before,
                ).contains(row) && row.id != id
        }),
{
    let command = Command::stopping(id, now);
    let after = command.applied(before);
    assert forall|row: DeploymentRunnable| #[trigger]
        RunnableQuery::All.rows(after).contains(row) <==> RunnableQuery::All.rows(before).contains(
            row,
        ) && row.id != id by {
        if RunnableQuery::All.rows(after).contains(row) {
            let link = lemma_link_of_runnable(after, row);
            let i = choose|i: int|
                0 <= i < after.deployments.len() && after.deployments[i] == link.deployment;
            assert(after.deployments[i] == command.updated(before.deployments[i]));
            assert(before.deployments[i] == link.deployment);
            lemma_running_is_listed(before, link);
        }
        if RunnableQuery::All.rows(before).contains(row) && row.id != id {
            let link = lemma_link_of_runnable(before, row);
            let i = choose|i: int|
                0 <= i < before.deployments.len() && before.deployments[i] == link.deployment;
            assert(after.deployments[i] == link.deployment);
            lemma_running_is_listed(after, link);
        }
    }
}

proof fn lemma_running_is_listed(tables: TablesView, link: Joined)
    requires
        is_linked(tables, link),
        link.deployment.state == State::Running,
    ensures
        RunnableQuery::All.rows(tables).contains(link.as_runnable()),
{
    let all = RunnableQuery::All.joined_rows(tables);
    law_all_runnable_deployments(tables);
    assert(all.contains(link));
    let i = choose|i: int| 0 <= i < all.len() && all[i] == link;
    assert(RunnableQuery::All.rows(tables)[i] == link.as_runnable());
}

/// A running deployment that was stopped is in the stopped state as of that time, and otherwise
/// as before, and no other deployment changes. It is neither active nor listed any more, and
/// still it is found by its identifier, to be started again, as it was listed.
pub proof fn law_stopped_deployment_can_be_started_again(
    before: TablesView,
    deployable: DeploymentRunnable,
    now: Timestamp,
)
    requires
        all_ids_are_unique(before),
        RunnableQuery::All.rows(before).contains(deployable),
    ensures
        ({
            let id = deployable.id;
            let service_id = deployable.service_id;
            let after = Command::stopping(id, now).applied(before);
            &&& deployment_with_id(before, id) matches Some(row)
            &&& deployment_with_id(after, id) == Some(
                Deployment { state: State::Stopped, last_update: now, ..row },
            )
            &&& forall|other: Uuid|
                other != id ==> #[trigger] deployment_with_id(after, other) == deployment_with_id(
                    before,
                    other,
                )
            &&& !RunnableQuery::All.rows(after).contains(deployable)
            &&& !ids_of((DeploymentQuery::Active { service_id }).rows(after)).contains(id)
            &&& first_row((RunnableQuery::WithId { id }).rows(after)) == Some(deployable)
        }),
{
    let id = deployable.id;
    let command = Command::stopping(id, now);
    let after = command.applied(before);
    let link = lemma_link_of_runnable(before, deployable);
    law_deployment_is_found_by_its_id(before, link.deployment);
    law_update_is_read_back(before, command, id);
    assert forall|other: Uuid| other != id implies #[trigger] deployment_with_id(after, other)
        == deployment_with_id(before, other) by {
        law_update_is_read_back(before, command, other);
        if let Some(row) = deployment_with_id(before, other) {
            let query = DeploymentQuery::WithId { id: other };
            assert(query.rows(before).contains(query.rows(before)[0]));
            lemma_selected_contains(before.deployments, query, row);
        }
    }
    law_stopped_deployment_is_not_listed(before, id, now);
    let query = DeploymentQuery::Active { service_id: deployable.service_id };
    law_stopped_deployment_is_not_active(before, id, now, deployable.service_id);
    let active = query.rows(after);
    assert(!ids_of(active).contains(id)) by {
        if ids_of(active).contains(id) {
            let i = choose|i: int| 0 <= i < ids_of(active).len() && ids_of(active)[i] == id;
            query.rows(before).lemma_filter_pred(other_than(id), i);
        }
    }
    let stopped = updated_link(command)(link);
    let i = choose|i: int|
        0 <= i < before.deployments.len() && before.deployments[i] == link.deployment;
    assert(after.deployments[i] == stopped.deployment);
    law_ids_stay_unique(before, command);
    law_runnable_deployment_is_found(after, stopped);
}

} // verus!
