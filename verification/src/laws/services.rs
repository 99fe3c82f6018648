//! Laws of the services.

use crate::command::{Command, OtherServices};
use crate::ids::{Ulid, Uuid};
use crate::laws::deployments::{law_all_runnable_deployments, law_runnable_deployment};
use crate::laws::tables::{lemma_selected_contains, lemma_selected_pairwise};
use crate::query::{named, RunnableQuery};
use crate::rows::Service;
use crate::tables::TablesView;
use vstd::prelude::*;

verus! {

/// A service that was found or created under a name is what the name finds from then on.
pub proof fn law_service_is_found_again(
    before: TablesView,
    name: Seq<char>,
    service: Service,
    after: TablesView,
)
    requires
        before.finds_or_creates(name, service, after),
    ensures
        after.service_named(name) == Some(service),
        service.name@ == name,
{
    before.lemma_service_named(name);
    before.services.lemma_filter_push(service, named(name));
}

/// Finding or creating a service twice comes back with the same service, and the second time
/// changes nothing.
pub proof fn law_service_is_created_once(
    before: TablesView,
    name: Seq<char>,
    first: Service,
    between: TablesView,
    second: Service,
    after: TablesView,
)
    requires
        before.finds_or_creates(name, first, between),
        between.finds_or_creates(name, second, after),
    ensures
        second == first,
        after == between,
{
    law_service_is_found_again(before, name, first, between);
}

/// Finding or creating a service changes nothing for the other names, nor for the deployments,
/// logs, secrets and resources.
pub proof fn law_other_services_are_found_as_before(
    before: TablesView,
    name: Seq<char>,
    service: Service,
    after: TablesView,
    other: Seq<char>,
)
    requires
        before.finds_or_creates(name, service, after),
        other != name,
    ensures
        after.service_named(other) == before.service_named(other),
        after == (TablesView { services: after.services, ..before }),
{
    before.services.lemma_filter_push(service, named(other));
}

/// Whether no two services have the same name.
pub open spec fn names_are_unique(tables: TablesView) -> bool {
    forall|i: int, j: int|
        0 <= i < j < tables.services.len() ==> (#[trigger] tables.services[i]).name@ != (
        #[trigger] tables.services[j]).name@
}

/// Names stay unique: only the adding of a service under a name that is taken could change that.
pub proof fn law_names_stay_unique(before: TablesView, command: Command)
    requires
        names_are_unique(before),
        command matches Command::InsertService { service } ==> before.service_named(
            service.name@,
        ) is None,
    ensures
        names_are_unique(command.applied(before)),
{
    let after = command.applied(before);
    match command {
        Command::InsertService { service } => {
            assert forall|i: int, j: int| 0 <= i < j < after.services.len() implies (
            #[trigger] after.services[i]).name@ != (#[trigger] after.services[j]).name@ by {
                assert(after.services[i] == before.services[i]);
                if j < before.services.len() {
                    assert(after.services[j] == before.services[j]);
                } else if before.services[i].name@ == service.name@ {
                    before.services.lemma_filter_contains(named(service.name@), i);
                }
            }
        },
        Command::DeleteService { service_id } => {
            lemma_selected_pairwise(
                before.services,
                OtherServices { id: service_id },
                |a: Service, b: Service| a.name@ != b.name@,
            );
        },
        _ => {},
    }
}

/// Whether no two services have the same identifier.
pub open spec fn service_ids_are_unique(tables: TablesView) -> bool {
    forall|i: int, j: int|
        0 <= i < j < tables.services.len() ==> (#[trigger] tables.services[i]).id != (
        #[trigger] tables.services[j]).id
}

/// Identifiers of services stay unique: only the adding of a service under one that is taken
/// could change that.
pub proof fn law_service_ids_stay_unique(before: TablesView, command: Command)
    requires
        service_ids_are_unique(before),
        command matches Command::InsertService { service } ==> forall|i: int|
            0 <= i < before.services.len() ==> (#[trigger] before.services[i]).id != service.id,
    ensures
        service_ids_are_unique(command.applied(before)),
{
    if let Command::DeleteService { service_id } = command {
        lemma_selected_pairwise(
            before.services,
            OtherServices { id: service_id },
            |a: Service, b: Service| a.id != b.id,
        );
    }
}

/// Names stay unique under finding or creating services.
pub proof fn law_created_names_are_unique(
    before: TablesView,
    name: Seq<char>,
    service: Service,
    after: TablesView,
)
    requires
        names_are_unique(before),
        before.finds_or_creates(name, service, after),
    ensures
        names_are_unique(after),
{
    if before.service_named(name) is None {
        law_names_stay_unique(before, Command::InsertService { service });
    }
}

/// A service that was removed is not found any more, under whatever name, and the services with
/// other identifiers stay.
pub proof fn law_removed_service_is_gone(before: TablesView, id: Ulid)
    ensures
        ({
            let after = (Command::DeleteService { service_id: id }).applied(before);
            forall|service: Service|
                #[trigger] after.services.contains(service) <==> before.services.contains(service)
                    && service.id != id
        }),
{
    let after = (Command::DeleteService { service_id: id }).applied(before);
    assert forall|service: Service|
        #[trigger] after.services.contains(service) <==> before.services.contains(service)
            && service.id != id by {
        lemma_selected_contains(before.services, OtherServices { id }, service);
    }
}

/// Where names are unique, removing the service with a name leaves nothing to be found under the
/// name, and what is found under another name of another service stays.
pub proof fn law_removed_name_is_free(before: TablesView, service: Service, other: Service)
    requires
        names_are_unique(before),
        before.service_named(service.name@) == Some(service),
        before.service_named(other.name@) == Some(other),
        other.id != service.id,
    ensures
        ({
            let after = (Command::DeleteService { service_id: service.id }).applied(before);
            &&& after.service_named(service.name@) is None
            &&& after.service_named(other.name@) == Some(other)
        }),
{
    let after = (Command::DeleteService { service_id: service.id }).applied(before);
    law_removed_service_is_gone(before, service.id);
    before.lemma_service_named(service.name@);
    before.lemma_service_named(other.name@);
    after.lemma_service_named(service.name@);
    after.lemma_service_named(other.name@);
    if after.service_named(service.name@) is Some {
        lemma_same_name(before, service, after.service_named(service.name@)->Some_0);
    }
    assert(after.services.contains(other));
    let i = choose|i: int| 0 <= i < after.services.len() && after.services[i] == other;
    after.services.lemma_filter_contains(named(other.name@), i);
    assert(after.service_named(other.name@) is Some);
    lemma_same_name(before, other, after.service_named(other.name@)->Some_0);
}

proof fn lemma_same_name(tables: TablesView, a: Service, b: Service)
    requires
        names_are_unique(tables),
        tables.services.contains(a),
        tables.services.contains(b),
        a.name@ == b.name@,
    ensures
        a == b,
{
    let i = choose|i: int| 0 <= i < tables.services.len() && tables.services[i] == a;
    let j = choose|j: int| 0 <= j < tables.services.len() && tables.services[j] == b;
    if i < j {
        assert(tables.services[i].name@ != tables.services[j].name@);
    } else if j < i {
        assert(tables.services[j].name@ != tables.services[i].name@);
    }
}

/// No deployment of a removed service is handed out to be started.
pub proof fn law_deployments_of_removed_services_stay_down(before: TablesView, id: Ulid)
    ensures
        ({
            let after = (Command::DeleteService { service_id: id }).applied(before);
            &&& forall|i: int|
                0 <= i < RunnableQuery::All.rows(after).len() ==> (
                #[trigger] RunnableQuery::All.rows(after)[i]).service_id != id
            &&& forall|deployment: Uuid, i: int|
                0 <= i < (RunnableQuery::WithId { id: deployment }).rows(after).len() ==> (
                #[trigger] (RunnableQuery::WithId { id: deployment }).rows(after)[i]).service_id
                    != id
        }),
{
    let after = (Command::DeleteService { service_id: id }).applied(before);
    law_removed_service_is_gone(before, id);
    law_all_runnable_deployments(after);
    assert forall|i: int| 0 <= i < RunnableQuery::All.rows(after).len() implies (
    #[trigger] RunnableQuery::All.rows(after)[i]).service_id != id by {
        let links = RunnableQuery::All.joined_rows(after);
        assert(links.contains(links[i]));
    }
    assert forall|deployment: Uuid, i: int|
        0 <= i < (RunnableQuery::WithId { id: deployment }).rows(after).len() implies (
    #[trigger] (RunnableQuery::WithId { id: deployment }).rows(after)[i]).service_id != id by {
        law_runnable_deployment(after, deployment);
        let links = (RunnableQuery::WithId { id: deployment }).joined_rows(after);
        assert(links.contains(links[i]));
    }
}

} // verus!
