//! Laws of the deployments.

use crate::command::Command;
use crate::ids::{Timestamp, Ulid, Uuid};
use crate::laws::tables::{
    lemma_filter_agree, lemma_filter_map_commute, lemma_filter_map_unchanged,
    lemma_ordered_contains, lemma_selected, lemma_selected_contains,
};
use crate::order::{
    in_order, law_ordered_rows_are_in_order, law_ordering_keeps_every_row, ordered, predicate,
    selected, Condition, Order,
};
use crate::persistence::ids_of;
use crate::query::{
    first_row, page, BuildingQuery, DeploymentQuery, NewestFirst, RunnableQuery,
};
use crate::rows::{Deployment, DeploymentBuilding, DeploymentRunnable, Service, State};
use crate::tables::{joined, joined_with, Joined, ServiceWithId, TablesView};
use vstd::prelude::*;

verus! {

/// The deployment with an identifier.
pub open spec fn deployment_with_id(tables: TablesView, id: Uuid) -> Option<Deployment> {
    first_row((DeploymentQuery::WithId { id }).rows(tables))
}

/// A deployment that was added under an identifier of its own is read back as it was added, and
/// no other deployment is read otherwise than before.
pub proof fn law_inserted_deployment_is_read_back(before: TablesView, deployment: Deployment)
    requires
        deployment_with_id(before, deployment.id) is None,
    ensures
        ({
            let after = (Command::InsertDeployment { deployment }).applied(before);
            &&& deployment_with_id(after, deployment.id) == Some(deployment)
            &&& forall|id: Uuid|
                id != deployment.id ==> #[trigger] deployment_with_id(after, id)
                    == deployment_with_id(before, id)
        }),
{
    let after = (Command::InsertDeployment { deployment }).applied(before);
    let query = DeploymentQuery::WithId { id: deployment.id };
    before.deployments.lemma_filter_push(deployment, predicate(query));
    assert forall|id: Uuid| id != deployment.id implies #[trigger] deployment_with_id(after, id)
        == deployment_with_id(before, id) by {
        let query = DeploymentQuery::WithId { id };
        before.deployments.lemma_filter_push(deployment, predicate(query));
    }
}

/// Whether a command is one that changes deployments which are in the table already.
pub open spec fn is_update(command: Command) -> bool {
    command is UpdateDeployment || command is SetAddress || command is SetIsNext
        || command is CleanupInvalidStates
}

/// What becomes of a deployment that may not be there.
pub open spec fn updated_option(command: Command, row: Option<Deployment>) -> Option<Deployment> {
    match row {
        Some(row) => Some(command.updated(row)),
        None => None,
    }
}

/// After an update each deployment is read as the update leaves it: the one that the update is
/// for with the new values and otherwise as before, each other one as before.
pub proof fn law_update_is_read_back(before: TablesView, command: Command, id: Uuid)
    requires
        is_update(command),
    ensures
        deployment_with_id(command.applied(before), id) == updated_option(
            command,
            deployment_with_id(before, id),
        ),
{
    let query = DeploymentQuery::WithId { id };
    lemma_filter_map_commute(
        before.deployments,
        predicate(query),
        |row: Deployment| command.updated(row),
    );
}

/// The updates of the state, of the address and of the flag of deployments do not get in each
/// other's way: the order in which they come is of no matter.
pub proof fn law_updates_commute(before: TablesView, a: Command, b: Command)
    requires
        is_update(a),
        is_update(b),
        a is UpdateDeployment ==> b is SetAddress || b is SetIsNext,
        a is CleanupInvalidStates ==> b is SetAddress || b is SetIsNext,
        a is SetAddress ==> !(b is SetAddress),
        a is SetIsNext ==> !(b is SetIsNext),
    ensures
        b.applied(a.applied(before)) == a.applied(b.applied(before)),
{
    assert(b.applied(a.applied(before)).deployments =~= a.applied(b.applied(before)).deployments);
}

/// The clean-up leaves no deployment in an unfinished state, and changes nothing but the state
/// of those that were in one.
pub proof fn law_cleanup_stops_what_is_unfinished(before: TablesView)
    ensures
        ({
            let after = Command::CleanupInvalidStates.applied(before);
            &&& after.deployments.len() == before.deployments.len()
            &&& forall|i: int|
                0 <= i < before.deployments.len() ==> {
                    let row = #[trigger] after.deployments[i];
                    &&& !row.state.is_unfinished()
                    &&& before.deployments[i].state.is_unfinished() ==> row == (Deployment {
                        state: State::Stopped,
                        ..before.deployments[i]
                    })
                    &&& !before.deployments[i].state.is_unfinished() ==> row
                        == before.deployments[i]
                }
        }),
{
}

/// Cleaning up twice is cleaning up once.
pub proof fn law_cleanup_is_idempotent(before: TablesView)
    ensures
        ({
            let after = Command::CleanupInvalidStates.applied(before);
            Command::CleanupInvalidStates.applied(after) == after
        }),
{
    let after = Command::CleanupInvalidStates.applied(before);
    assert(Command::CleanupInvalidStates.applied(after).deployments =~= after.deployments);
}

/// The clean-up leaves the running deployments alone.
pub proof fn law_cleanup_keeps_active_deployments(before: TablesView, service_id: Ulid)
    ensures
        ({
            let query = DeploymentQuery::Active { service_id };
            query.rows(Command::CleanupInvalidStates.applied(before)) == query.rows(before)
        }),
{
    lemma_filter_map_unchanged(
        before.deployments,
        predicate(DeploymentQuery::Active { service_id }),
        |row: Deployment| Command::CleanupInvalidStates.updated(row),
    );
}

/// The deployments but for one.
pub open spec fn other_than(id: Uuid) -> spec_fn(Deployment) -> bool {
    |row: Deployment| row.id != id
}

/// A deployment that was stopped is no longer among the running ones of its service; the other
/// running ones stay, in their order.
pub proof fn law_stopped_deployment_is_not_active(
    before: TablesView,
    id: Uuid,
    now: Timestamp,
    service_id: Ulid,
)
    ensures
        ({
            let query = DeploymentQuery::Active { service_id };
            query.rows(Command::stopping(id, now).applied(before)) == query.rows(before).filter(
                other_than(id),
            )
        }),
{
    let command = Command::stopping(id, now);
    let query = DeploymentQuery::Active { service_id };
    lemma_stopped(before.deployments, command, id, query);
}

proof fn lemma_stopped(
    rows: Seq<Deployment>,
    command: Command,
    id: Uuid,
    query: DeploymentQuery,
)
    requires
        command matches Command::UpdateDeployment { state } && state.id == id && state.state
            == State::Stopped,
        query is Active,
    ensures
        command.updated_all(rows).filter(predicate(query)) == rows.filter(predicate(query)).filter(
            other_than(id),
        ),
    decreases rows.len(),
{
    reveal(Seq::filter);
    if rows.len() > 0 {
        let rest = rows.drop_last();
        let last = rows.last();
        lemma_stopped(rest, command, id, query);
        assert(command.updated_all(rows).drop_last() =~= command.updated_all(rest));
        rest.filter(predicate(query)).lemma_filter_push(last, other_than(id));
    } else {
        assert(command.updated_all(rows) =~= rows);
    }
}

/// The active deployments of a service are those that are running, all of them; the active
/// deployment is the first of them.
pub proof fn law_active_deployments_are_running(tables: TablesView, service_id: Ulid)
    ensures
        ({
            let rows = (DeploymentQuery::Active { service_id }).rows(tables);
            &&& first_row(ids_of(rows)) == match first_row(rows) {
                Some(row) => Some(row.id),
                None => None,
            }
            &&& forall|i: int|
                0 <= i < rows.len() ==> (#[trigger] rows[i]).state == State::Running
                    && rows[i].service_id == service_id && tables.deployments.contains(rows[i])
            &&& forall|i: int|
                0 <= i < tables.deployments.len() && (
                #[trigger] tables.deployments[i]).service_id == service_id
                    && tables.deployments[i].state == State::Running ==> rows.contains(
                    tables.deployments[i],
                )
        }),
{
    let query = DeploymentQuery::Active { service_id };
    lemma_selected(tables.deployments, query);
}

/// All deployments of a service, latest update first.
pub open spec fn history(tables: TablesView, service_id: Ulid) -> Seq<Deployment> {
    ordered(
        selected(
            tables.deployments,
            DeploymentQuery::Page { service_id, offset: 0, limit: u32::MAX },
        ),
        NewestFirst,
    )
}

proof fn lemma_page_of_history(tables: TablesView, service_id: Ulid, offset: u32, limit: u32)
    ensures
        (DeploymentQuery::Page { service_id, offset, limit }).rows(tables) == page(
            history(tables, service_id),
            offset as nat,
            limit as nat,
        ),
{
    lemma_filter_agree(
        tables.deployments,
        predicate(DeploymentQuery::Page { service_id, offset, limit }),
        predicate(DeploymentQuery::Page { service_id, offset: 0, limit: u32::MAX }),
    );
}

/// A page of deployments is in order, latest update first, and holds deployments of the
/// service asked for only, at most as many as asked for.
pub proof fn law_page_is_in_order(tables: TablesView, service_id: Ulid, offset: u32, limit: u32)
    ensures
        ({
            let rows = (DeploymentQuery::Page { service_id, offset, limit }).rows(tables);
            &&& in_order(rows, NewestFirst)
            &&& rows.len() <= limit
            &&& forall|i: int|
                0 <= i < rows.len() ==> (#[trigger] rows[i]).service_id == service_id
                    && tables.deployments.contains(rows[i])
        }),
{
    let query = DeploymentQuery::Page { service_id, offset, limit };
    let rows = query.rows(tables);
    let all = ordered(selected(tables.deployments, query), NewestFirst);
    law_ordered_rows_are_in_order(selected(tables.deployments, query), NewestFirst);
    lemma_selected(tables.deployments, query);
    assert forall|i: int, j: int| 0 <= i < j < rows.len() implies !NewestFirst.precedes(
        #[trigger] rows[j],
        #[trigger] rows[i],
    ) by {
        assert(rows[i] == all[i + offset] && rows[j] == all[j + offset]);
    }
    assert forall|i: int| 0 <= i < rows.len() implies (#[trigger] rows[i]).service_id == service_id
        && tables.deployments.contains(rows[i]) by {
        assert(rows[i] == all[i + offset]);
        assert(all.contains(rows[i]));
        lemma_ordered_contains(selected(tables.deployments, query), NewestFirst, rows[i]);
    }
}

/// Pages that follow each other make up one longer page: going through the pages of a service
/// one meets each deployment once.
pub proof fn law_pages_follow_each_other(
    tables: TablesView,
    service_id: Ulid,
    offset: u32,
    limit: u32,
    more: u32,
)
    requires
        offset + limit <= u32::MAX,
        limit + more <= u32::MAX,
    ensures
        (DeploymentQuery::Page { service_id, offset, limit }).rows(tables) + (
        DeploymentQuery::Page {
            service_id,
            offset: (offset + limit) as u32,
            limit: more,
        }).rows(tables) == (DeploymentQuery::Page {
            service_id,
            offset,
            limit: (limit + more) as u32,
        }).rows(tables),
{
    lemma_page_of_history(tables, service_id, offset, limit);
    lemma_page_of_history(tables, service_id, (offset + limit) as u32, more);
    lemma_page_of_history(tables, service_id, offset, (limit + more) as u32);
    let all = history(tables, service_id);
    assert(page(all, offset as nat, limit as nat) + page(all, (offset + limit) as nat, more as nat)
        =~= page(all, offset as nat, (limit + more) as nat));
}

/// A page that starts at the front and is long enough holds all deployments of the service.
pub proof fn law_long_page_is_complete(tables: TablesView, service_id: Ulid, limit: u32)
    requires
        history(tables, service_id).len() <= limit,
    ensures
        ({
            let query = DeploymentQuery::Page { service_id, offset: 0, limit };
            query.rows(tables).to_multiset() == selected(tables.deployments, query).to_multiset()
        }),
{
    let query = DeploymentQuery::Page { service_id, offset: 0, limit };
    let found = selected(tables.deployments, query);
    law_ordering_keeps_every_row(found, NewestFirst);
    lemma_filter_agree(
        tables.deployments,
        predicate(query),
        predicate(DeploymentQuery::Page { service_id, offset: 0, limit: u32::MAX }),
    );
    assert(page(ordered(found, NewestFirst), 0, limit as nat) =~= ordered(found, NewestFirst));
}

/// A page that starts behind the last deployment is empty.
pub proof fn law_page_behind_the_end_is_empty(
    tables: TablesView,
    service_id: Ulid,
    offset: u32,
    limit: u32,
)
    requires
        history(tables, service_id).len() <= offset,
    ensures
        (DeploymentQuery::Page { service_id, offset, limit }).rows(tables) == Seq::<
            Deployment,
        >::empty(),
{
    lemma_page_of_history(tables, service_id, offset, limit);
}

/// A deployment is joined with each service that it belongs to, and with no other.
pub proof fn lemma_joined(deployments: Seq<Deployment>, services: Seq<Service>, row: Joined)
    ensures
        joined(deployments, services).contains(row) <==> deployments.contains(row.deployment)
            && services.contains(row.service) && row.service.id == row.deployment.service_id,
    decreases deployments.len(),
{
    if deployments.len() > 0 {
        let rest = deployments.drop_last();
        let last = deployments.last();
        lemma_joined(rest, services, row);
        let matching = ServiceWithId { id: last.service_id };
        let found = selected(services, matching);
        lemma_selected(services, matching);
        let front = joined(rest, services);
        let back = joined_with(last, services);
        let all = joined(deployments, services);
        assert(deployments =~= rest.push(last));
        if all.contains(row) {
            let k = choose|k: int| 0 <= k < all.len() && all[k] == row;
            if k < front.len() {
                assert(front[k] == row);
                let i = choose|i: int| 0 <= i < rest.len() && rest[i] == row.deployment;
                assert(deployments[i] == row.deployment);
            } else {
                assert(back[k - front.len()] == row);
                assert(row.service == found[k - front.len()]);
                assert(deployments[rest.len() as int] == row.deployment);
            }
        }
        if deployments.contains(row.deployment) && services.contains(row.service) && row.service.id
            == row.deployment.service_id {
            let i = choose|i: int| 0 <= i < deployments.len() && deployments[i] == row.deployment;
            if i < rest.len() {
                assert(rest[i] == row.deployment);
                let k = choose|k: int| 0 <= k < front.len() && front[k] == row;
                assert(all[k] == row);
            } else {
                let j = choose|j: int| 0 <= j < services.len() && services[j] == row.service;
                assert(matching.holds(services[j]));
                let k = choose|k: int| 0 <= k < found.len() && found[k] == row.service;
                assert(back[k] == row);
                assert(all[front.len() + k] == row);
            }
        }
    }
}

/// What a command makes of a deployment that is joined with its service.
pub open spec fn updated_link(command: Command) -> spec_fn(Joined) -> Joined {
    |row: Joined| Joined { deployment: command.updated(row.deployment), service: row.service }
}

/// An update of the deployments can come before they are joined with their services or after.
pub proof fn lemma_joined_updated(
    deployments: Seq<Deployment>,
    services: Seq<Service>,
    command: Command,
)
    ensures
        joined(command.updated_all(deployments), services) == joined(
            deployments,
            services,
        ).map_values(updated_link(command)),
    decreases deployments.len(),
{
    let after = command.updated_all(deployments);
    if deployments.len() > 0 {
        let rest = deployments.drop_last();
        let last = deployments.last();
        lemma_joined_updated(rest, services, command);
        assert(after.drop_last() =~= command.updated_all(rest));
        assert(after.last() == command.updated(last));
        assert(joined_with(after.last(), services) =~= joined_with(last, services).map_values(
            updated_link(command),
        ));
        assert((joined(rest, services) + joined_with(last, services)).map_values(
            updated_link(command),
        ) =~= joined(rest, services).map_values(updated_link(command)) + joined_with(
            last,
            services,
        ).map_values(updated_link(command)));
    } else {
        assert(joined(after, services) =~= joined(deployments, services).map_values(
            updated_link(command),
        ));
    }
}

/// Whether a deployment of the tables is joined with its service.
pub open spec fn is_linked(tables: TablesView, row: Joined) -> bool {
    &&& tables.deployments.contains(row.deployment)
    &&& tables.services.contains(row.service)
    &&& row.service.id == row.deployment.service_id
}

/// All running deployments whose service is known are handed out to be started, and no others,
/// latest update first.
pub proof fn law_all_runnable_deployments(tables: TablesView)
    ensures
        in_order(RunnableQuery::All.joined_rows(tables), NewestFirst),
        forall|row: Joined|
            #[trigger] RunnableQuery::All.joined_rows(tables).contains(row) <==> is_linked(
                tables,
                row,
            ) && row.deployment.state == State::Running,
{
    let links = joined(tables.deployments, tables.services);
    law_ordered_rows_are_in_order(selected(links, RunnableQuery::All), NewestFirst);
    assert forall|row: Joined|
        #[trigger] RunnableQuery::All.joined_rows(tables).contains(row) <==> is_linked(tables, row)
            && row.deployment.state == State::Running by {
        lemma_joined(tables.deployments, tables.services, row);
        lemma_selected_contains(links, RunnableQuery::All, row);
        lemma_ordered_contains(selected(links, RunnableQuery::All), NewestFirst, row);
    }
}

/// A single deployment is handed out to be started where it is running, was stopped or is
/// completed, and its service is known.
pub proof fn law_runnable_deployment(tables: TablesView, id: Uuid)
    ensures
        forall|row: Joined|
            #[trigger] (RunnableQuery::WithId { id }).joined_rows(tables).contains(row)
                <==> is_linked(tables, row) && row.deployment.id == id
                && row.deployment.state.is_runnable(),
{
    let links = joined(tables.deployments, tables.services);
    let query = RunnableQuery::WithId { id };
    assert forall|row: Joined| #[trigger] query.joined_rows(tables).contains(row) <==> is_linked(
        tables,
        row,
    ) && row.deployment.id == id && row.deployment.state.is_runnable() by {
        lemma_joined(tables.deployments, tables.services, row);
        lemma_selected_contains(links, query, row);
    }
}

/// All deployments that are being built and whose service is known are handed out to be built
/// again, and no others, latest update first.
pub proof fn law_all_building_deployments(tables: TablesView)
    ensures
        in_order(BuildingQuery::All.joined_rows(tables), NewestFirst),
        forall|row: Joined|
            #[trigger] BuildingQuery::All.joined_rows(tables).contains(row) <==> is_linked(
                tables,
                row,
            ) && row.deployment.state == State::Building,
{
    let links = joined(tables.deployments, tables.services);
    law_ordered_rows_are_in_order(selected(links, BuildingQuery::All), NewestFirst);
    assert forall|row: Joined|
        #[trigger] BuildingQuery::All.joined_rows(tables).contains(row) <==> is_linked(tables, row)
            && row.deployment.state == State::Building by {
        lemma_joined(tables.deployments, tables.services, row);
        lemma_selected_contains(links, BuildingQuery::All, row);
        lemma_ordered_contains(selected(links, BuildingQuery::All), NewestFirst, row);
    }
}

/// A single deployment is handed out to be built again where it is being built and its service
/// is known.
pub proof fn law_building_deployment(tables: TablesView, id: Uuid)
    ensures
        forall|row: Joined|
            #[trigger] (BuildingQuery::WithId { id }).joined_rows(tables).contains(row)
                <==> is_linked(tables, row) && row.deployment.id == id && row.deployment.state
                == State::Building,
{
    let links = joined(tables.deployments, tables.services);
    let query = BuildingQuery::WithId { id };
    assert forall|row: Joined| #[trigger] query.joined_rows(tables).contains(row) <==> is_linked(
        tables,
        row,
    ) && row.deployment.id == id && row.deployment.state == State::Building by {
        lemma_joined(tables.deployments, tables.services, row);
        lemma_selected_contains(links, query, row);
    }
}

/// What is handed out among all running deployments is handed out on its own as well.
pub proof fn law_running_deployment_is_runnable(tables: TablesView, row: DeploymentRunnable)
    requires
        RunnableQuery::All.rows(tables).contains(row),
    ensures
        (RunnableQuery::WithId { id: row.id }).rows(tables).contains(row),
{
    let all = RunnableQuery::All.joined_rows(tables);
    let query = RunnableQuery::WithId { id: row.id };
    let rows = RunnableQuery::All.rows(tables);
    let i = choose|i: int| 0 <= i < rows.len() && rows[i] == row;
    let link = all[i];
    assert(all.contains(link));
    law_all_runnable_deployments(tables);
    law_runnable_deployment(tables, row.id);
    assert(query.joined_rows(tables).contains(link));
    let own = query.joined_rows(tables);
    let j = choose|j: int| 0 <= j < own.len() && own[j] == link;
    assert(query.rows(tables)[j] == row);
}

/// The clean-up takes nothing from the deployments that are handed out to be started, and leaves
/// none to be built again.
pub proof fn law_cleanup_ends_building(before: TablesView)
    ensures
        ({
            let after = Command::CleanupInvalidStates.applied(before);
            &&& RunnableQuery::All.rows(after) == RunnableQuery::All.rows(before)
            &&& BuildingQuery::All.rows(after) == Seq::<DeploymentBuilding>::empty()
        }),
{
    let command = Command::CleanupInvalidStates;
    let after = command.applied(before);
    let links = joined(before.deployments, before.services);
    lemma_joined_updated(before.deployments, before.services, command);
    lemma_filter_map_unchanged(links, predicate(RunnableQuery::All), updated_link(command));
    law_all_building_deployments(after);
    let building = BuildingQuery::All.joined_rows(after);
    if building.len() > 0 {
        assert(building.contains(building[0]));
        let i = choose|i: int|
            0 <= i < after.deployments.len() && after.deployments[i] == building[0].deployment;
        law_cleanup_stops_what_is_unfinished(before);
    }
    assert(BuildingQuery::All.rows(after) =~= Seq::empty());
}

/// Whether no two deployments have the same identifier.
pub open spec fn ids_are_unique(tables: TablesView) -> bool {
    forall|i: int, j: int|
        0 <= i < j < tables.deployments.len() ==> (#[trigger] tables.deployments[i]).id != (
        #[trigger] tables.deployments[j]).id
}

/// Identifiers stay unique: only the adding of a deployment under one that is taken could change
/// that.
pub proof fn law_ids_stay_unique(before: TablesView, command: Command)
    requires
        ids_are_unique(before),
        command matches Command::InsertDeployment { deployment } ==> deployment_with_id(
            before,
            deployment.id,
        ) is None,
    ensures
        ids_are_unique(command.applied(before)),
{
    let after = command.applied(before);
    match command {
        Command::InsertDeployment { deployment } => {
            let query = DeploymentQuery::WithId { id: deployment.id };
            lemma_selected(before.deployments, query);
            assert forall|i: int, j: int| 0 <= i < j < after.deployments.len() implies (
            #[trigger] after.deployments[i]).id != (#[trigger] after.deployments[j]).id by {
                assert(after.deployments[i] == before.deployments[i]);
                if j < before.deployments.len() {
                    assert(after.deployments[j] == before.deployments[j]);
                } else if before.deployments[i].id == deployment.id {
                    assert(query.holds(before.deployments[i]));
                    assert(query.rows(before).contains(before.deployments[i]));
                }
            }
        },
        _ => {
            assert forall|i: int, j: int| 0 <= i < j < after.deployments.len() implies (
            #[trigger] after.deployments[i]).id != (#[trigger] after.deployments[j]).id by {
                assert(after.deployments[i].id == before.deployments[i].id);
                assert(after.deployments[j].id == before.deployments[j].id);
            }
        },
    }
}

/// No deployment is handed out both to be started and to be built again.
pub proof fn law_runnable_or_building(tables: TablesView, id: Uuid)
    requires
        ids_are_unique(tables),
    ensures
        (RunnableQuery::WithId { id }).rows(tables).len() == 0 || (BuildingQuery::WithId {
            id,
        }).rows(tables).len() == 0,
{
    let runnable = (RunnableQuery::WithId { id }).joined_rows(tables);
    let building = (BuildingQuery::WithId { id }).joined_rows(tables);
    if runnable.len() > 0 && building.len() > 0 {
        law_runnable_deployment(tables, id);
        law_building_deployment(tables, id);
        assert(runnable.contains(runnable[0]));
        assert(building.contains(building[0]));
        let i = choose|i: int|
            0 <= i < tables.deployments.len() && tables.deployments[i] == runnable[0].deployment;
        let j = choose|j: int|
            0 <= j < tables.deployments.len() && tables.deployments[j] == building[0].deployment;
        assert(i == j) by {
            if i < j {
                assert(tables.deployments[i].id != tables.deployments[j].id);
            } else if j < i {
                assert(tables.deployments[j].id != tables.deployments[i].id);
            }
        }
    }
}

} // verus!
