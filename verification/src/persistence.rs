//! The persistence of a deployer, held in memory.

use crate::address::{address_text, to_address_text};
use crate::command::Command;
use crate::ids::{ulid_text, Timestamp, Ulid, Uuid};
use crate::laws::deployments::law_page_is_in_order;
use crate::laws::reading::{
    law_active_deployment_is_the_first_running, law_found_deployment_has_the_id,
    law_found_service_has_the_name, law_page_comes_latest_first,
};
use crate::lookup::{after_insert, after_search, after_search_with, Lookup};
use crate::query::{
    first_row, running_rows, AddressQuery, BuildingQuery, DeploymentQuery, LogQuery, ResourceQuery,
    RunnableQuery, SecretQuery, ServiceQuery,
};
use crate::recorder::{LogType, RecordedLog};
use crate::resources::{
    insert_resources, Claimed, GetResources, RecordRequest, ResourceRecord,
};
use crate::rows::{
    Deployment, DeploymentBuilding, DeploymentRunnable, DeploymentState, Log, Resource, Row,
    Secret, Service, State,
};
use crate::tables::{first, Tables, TablesView};
use vstd::prelude::*;

verus! {

/// The identifiers of deployments.
pub open spec fn ids_of(rows: Seq<Deployment>) -> Seq<Uuid> {
    rows.map_values(|row: Deployment| row.id)
}

/// Picks the identifiers of deployments.
pub fn deployment_ids(rows: &Vec<Deployment>) -> (ids: Vec<Uuid>)
    ensures
        ids@ == ids_of(rows@),
        ids@.len() == rows@.len(),
        forall|i: int| 0 <= i < rows@.len() ==> #[trigger] ids@[i] == rows@[i].id,
{
    let mut ids: Vec<Uuid> = Vec::new();
    let mut i: usize = 0;
    while i < rows.len()
        invariant
            i <= rows.len(),
            ids@.len() == i,
            forall|j: int| 0 <= j < i ==> #[trigger] ids@[j] == rows@[j].id,
        decreases rows.len() - i,
    {
        ids.push(rows[i].id);
        i += 1;
    }
    assert(ids@ =~= ids_of(rows@));
    ids
}

/// The services, deployments, logs and secrets of a project.
pub struct Persistence {
    pub tables: Tables,
    pub project_id: Ulid,
}

impl View for Persistence {
    type V = TablesView;

    open spec fn view(&self) -> TablesView {
        self.tables@
    }
}

impl Persistence {
    /// Persistence of a project, without a row.
    pub fn new(project_id: Ulid) -> (persistence: Persistence)
        ensures
            persistence@ == TablesView::empty(),
            persistence.project_id == project_id,
    {
        Persistence { tables: Tables::new(), project_id }
    }

    /// Persistence of a new project, without a row.
    pub fn new_in_memory() -> (persistence: Persistence)
        ensures
            persistence@ == TablesView::empty(),
    {
        Persistence::new(Ulid::new())
    }

    pub fn project_id(&self) -> (project_id: Ulid)
        ensures
            project_id == self.project_id,
    {
        self.project_id
    }

    /// Adds a deployment.
    pub fn insert_deployment(&mut self, deployment: Deployment)
        ensures
            final(self)@ == (Command::InsertDeployment { deployment }).applied(old(self)@),
            final(self).project_id == old(self).project_id,
    {
        self.tables.execute(&Command::InsertDeployment { deployment });
    }

    /// The deployment with an identifier.
    pub fn get_deployment(&self, id: &Uuid) -> (result: Option<Deployment>)
        ensures
            result == first_row((DeploymentQuery::WithId { id: *id }).rows(self@)),
            match result {
                Some(row) => row.id == *id && self.tables.deployments@.contains(row),
                None => forall|i: int|
                    0 <= i < self.tables.deployments@.len() ==> (
                    #[trigger] self.tables.deployments@[i]).id != *id,
            },
    {
        proof {
            law_found_deployment_has_the_id(self@, *id);
        }
        first(self.tables.fetch_deployments(&DeploymentQuery::WithId { id: *id }))
    }

    /// At most `limit` deployments of a service, latest update first, after `offset` of them
    /// were left out.
    pub fn get_deployments(&self, service_id: &Ulid, offset: u32, limit: u32) -> (result: Vec<
        Deployment,
    >)
        ensures
            result@ == (DeploymentQuery::Page { service_id: *service_id, offset, limit }).rows(
                self@,
            ),
            result@.len() <= limit,
            forall|k: int|
                0 <= k < result@.len() ==> (#[trigger] result@[k]).service_id == *service_id,
            forall|k: int, l: int|
                0 <= k < l < result@.len() ==> {
                    let a = (#[trigger] result@[k]).last_update;
                    let b = (#[trigger] result@[l]).last_update;
                    a.secs > b.secs || (a.secs == b.secs && a.nanos >= b.nanos)
                },
    {
        proof {
            law_page_is_in_order(self@, *service_id, offset, limit);
            law_page_comes_latest_first(self@, *service_id, offset, limit);
        }
        self.tables.fetch_deployments(
            &DeploymentQuery::Page { service_id: *service_id, offset, limit },
        )
    }

    /// The running deployment of a service.
    pub fn get_active_deployment(&self, service_id: &Ulid) -> (result: Option<Deployment>)
        ensures
            result == first_row((DeploymentQuery::Active { service_id: *service_id }).rows(self@)),
            match result {
                Some(row) => row.service_id == *service_id && row.state == State::Running
                    && self.tables.deployments@.contains(row),
                None => forall|i: int|
                    0 <= i < self.tables.deployments@.len() ==> (
                    #[trigger] self.tables.deployments@[i]).service_id != *service_id
                        || self.tables.deployments@[i].state != State::Running,
            },
    {
        proof {
            law_active_deployment_is_the_first_running(self@, *service_id);
        }
        first(self.tables.fetch_deployments(&DeploymentQuery::Active { service_id: *service_id }))
    }

    /// The identifiers of the running deployments of a service.
    pub fn get_active_deployments(&self, service_id: &Ulid) -> (result: Vec<Uuid>)
        ensures
            result@ == ids_of((DeploymentQuery::Active { service_id: *service_id }).rows(self@)),
    {
        let rows = self.tables.fetch_deployments(
            &DeploymentQuery::Active { service_id: *service_id },
        );
        deployment_ids(&rows)
    }

    /// Cleans up all invalid states: stops the deployments whose work ended with the process
    /// that did it.
    pub fn cleanup_invalid_states(&mut self)
        ensures
            final(self)@ == Command::CleanupInvalidStates.applied(old(self)@),
            final(self).project_id == old(self).project_id,
    {
        self.tables.execute(&Command::CleanupInvalidStates);
    }

    /// Takes the steps of finding or creating a service.
    fn settle(&mut self, lookup: Lookup<()>) -> (service: Service)
        requires
            lookup is Create || lookup->Done_0 is Ok,
        ensures
            final(self).project_id == old(self).project_id,
            match lookup {
                Lookup::Done(result) => service == result->Ok_0 && final(self)@ == old(self)@,
                Lookup::Create(created) => service == created && final(self)@ == (
                Command::InsertService { service: created }).applied(old(self)@),
            },
    {
        match lookup {
            Lookup::Done(Ok(service)) => service,
            Lookup::Done(Err(_)) => vstd::pervasive::unreached(),
            Lookup::Create(service) => {
                self.tables.execute(&Command::InsertService { service: service.copy() });
                match after_insert::<()>(service, Ok(())) {
                    Ok(service) => service,
                    Err(_) => vstd::pervasive::unreached(),
                }
            },
        }
    }

    /// The service with a name, which is created under a new identifier where there is none.
    pub fn get_or_create_service(&mut self, name: &str) -> (service: Service)
        ensures
            old(self)@.finds_or_creates(name@, service, final(self)@),
            service.name@ == name@,
            final(self).project_id == old(self).project_id,
    {
        let found = self.get_service_by_name(name);
        proof {
            self@.lemma_service_named(name@);
        }
        self.settle(after_search::<()>(name, Ok(found)))
    }

    /// The service with a name, which is created under the identifier `fresh` where there is
    /// none.
    pub fn get_or_create_service_with(&mut self, name: &str, fresh: Ulid) -> (service: Service)
        ensures
            old(self)@.finds_or_creates(name@, service, final(self)@),
            old(self)@.service_named(name@) is None ==> service.id == fresh,
            service.name@ == name@,
            final(self).project_id == old(self).project_id,
    {
        let found = self.get_service_by_name(name);
        proof {
            self@.lemma_service_named(name@);
        }
        self.settle(after_search_with::<()>(name, Ok(found), fresh))
    }

    /// The service with a name.
    pub fn get_service_by_name(&self, name: &str) -> (result: Option<Service>)
        ensures
            result == self@.service_named(name@),
            match result {
                Some(row) => row.name@ == name@ && self.tables.services@.contains(row),
                None => forall|i: int|
                    0 <= i < self.tables.services@.len() ==> (
                    #[trigger] self.tables.services@[i]).name@ != name@,
            },
    {
        proof {
            law_found_service_has_the_name(self@, name@);
        }
        first(self.tables.fetch_services(&ServiceQuery::Named { name: name.to_owned() }))
    }

    /// Removes a service.
    pub fn delete_service(&mut self, id: &Ulid)
        ensures
            final(self)@ == (Command::DeleteService { service_id: *id }).applied(old(self)@),
            final(self).project_id == old(self).project_id,
    {
        self.tables.execute(&Command::DeleteService { service_id: *id });
    }

    /// All services.
    pub fn get_all_services(&self) -> (result: Vec<Service>)
        ensures
            result@ == self@.services,
    {
        self.tables.fetch_services(&ServiceQuery::All)
    }

    /// All running deployments, latest update first.
    pub fn get_all_runnable_deployments(&self) -> (result: Vec<DeploymentRunnable>)
        ensures
            result@ == RunnableQuery::All.rows(self@),
    {
        self.tables.fetch_runnable(&RunnableQuery::All)
    }

    /// Gets a deployment if it is runnable.
    pub fn get_runnable_deployment(&self, id: &Uuid) -> (result: Option<DeploymentRunnable>)
        ensures
            result == first_row((RunnableQuery::WithId { id: *id }).rows(self@)),
    {
        first(self.tables.fetch_runnable(&RunnableQuery::WithId { id: *id }))
    }

    /// All deployments that are being built, latest update first.
    pub fn get_all_building_deployments(&self) -> (result: Vec<DeploymentBuilding>)
        ensures
            result@ == BuildingQuery::All.rows(self@),
    {
        self.tables.fetch_building(&BuildingQuery::All)
    }

    /// Gets a deployment if it is being built.
    pub fn get_building_deployment(&self, id: &Uuid) -> (result: Option<DeploymentBuilding>)
        ensures
            result == first_row((BuildingQuery::WithId { id: *id }).rows(self@)),
    {
        first(self.tables.fetch_building(&BuildingQuery::WithId { id: *id }))
    }

    /// The logs of a deployment, earliest first.
    pub fn get_deployment_logs(&self, id: &Uuid) -> (result: Vec<Log>)
        ensures
            result@ == (LogQuery { id: *id }).rows(self@),
    {
        self.tables.fetch_logs(&LogQuery { id: *id })
    }

    /// Stops a deployment at a time.
    pub fn stop_running_deployment_at(&mut self, deployable: DeploymentRunnable, now: Timestamp)
        ensures
            final(self)@ == Command::stopping(deployable.id, now).applied(old(self)@),
            final(self).project_id == old(self).project_id,
    {
        self.tables.execute(&Command::stop_at(&deployable, now));
    }

    /// Stops a deployment now.
    pub fn stop_running_deployment(&mut self, deployable: DeploymentRunnable)
        ensures
            exists|now: Timestamp|
                now.nanos < 1_000_000_000 && final(self)@ == (#[trigger] Command::stopping(
                    deployable.id,
                    now,
                )).applied(old(self)@),
            final(self).project_id == old(self).project_id,
    {
        self.tables.execute(&Command::stop(&deployable));
    }

    /// Sets the state and the time of the last update of a deployment.
    pub fn update_deployment(&mut self, state: DeploymentState)
        ensures
            final(self)@ == (Command::UpdateDeployment { state }).applied(old(self)@),
            final(self).project_id == old(self).project_id,
    {
        self.tables.execute(&Command::UpdateDeployment { state });
    }

    /// Adds a log.
    pub fn insert_log(&mut self, log: Log)
        ensures
            final(self)@ == (Command::InsertLog { log }).applied(old(self)@),
            final(self).project_id == old(self).project_id,
    {
        self.tables.execute(&Command::InsertLog { log });
    }

    /// Records a log: stores it, and takes over the state that it tells of.
    pub fn record(&mut self, log: RecordedLog)
        ensures
            log.records(old(self)@, final(self)@),
            final(self).project_id == old(self).project_id,
    {
        let steps = log.steps();
        proof {
            assert(log.is_step(0, steps@[0]));
            if log.log_type == LogType::State {
                assert(log.is_step(1, steps@[1]));
            }
        }
        let mut i: usize = 0;
        let ghost start = self@;
        while i < steps.len()
            invariant
                i <= steps.len(),
                self.project_id == old(self).project_id,
                start == old(self)@,
                steps.len() == 1 || steps.len() == 2,
                i == 0 ==> self@ == start,
                i == 1 ==> self@ == steps@[0].command.applied(start),
                i == 2 ==> self@ == steps@[1].command.applied(steps@[0].command.applied(start)),
            decreases steps.len() - i,
        {
            self.tables.execute(&steps[i].command);
            i += 1;
        }
    }

    /// Stores a secret at a time, in place of the one with the same service and key.
    pub fn insert_secret_at(&mut self, service_id: &Ulid, key: &str, value: &str, now: Timestamp)
        ensures
            final(self).project_id == old(self).project_id,
            exists|secret: Secret|
                #[trigger]
                secret.is_kept(*service_id, key@, value@) && secret.last_update == now
                    && final(self)@ == (Command::InsertSecret { secret }).applied(old(self)@),
    {
        self.tables.execute(&Command::store_secret_at(*service_id, key, value, now));
    }

    /// Stores a secret now, in place of the one with the same service and key.
    pub fn insert_secret(&mut self, service_id: &Ulid, key: &str, value: &str)
        ensures
            final(self).project_id == old(self).project_id,
            exists|secret: Secret|
                #[trigger]
                secret.is_kept(*service_id, key@, value@) && secret.last_update.nanos
                    < 1_000_000_000 && final(self)@ == (Command::InsertSecret { secret }).applied(
                    old(self)@,
                ),
    {
        self.tables.execute(&Command::store_secret(*service_id, key, value));
    }

    /// The secrets of a service, by key.
    pub fn get_secrets(&self, service_id: &Ulid) -> (result: Vec<Secret>)
        ensures
            result@ == (SecretQuery { service_id: *service_id }).rows(self@),
    {
        self.tables.fetch_secrets(&SecretQuery { service_id: *service_id })
    }

    /// The text of the address of the running deployment of the service with a name, the one
    /// with the earliest update where several are running. The text is empty where that
    /// deployment has no address yet.
    pub fn get_address_for_service(&self, service_name: &str) -> (result: Option<String>)
        ensures
            match first_row(running_rows(self@, service_name@)) {
                None => result is None,
                Some(row) => result matches Some(text) && text@ == address_text(
                    row.deployment.address,
                ) && match row.deployment.address {
                    Some(address) => text@ == address@,
                    None => text@.len() == 0,
                },
            },
    {
        let query = AddressQuery { service_name: service_name.to_owned() };
        match first(self.tables.fetch_addresses(&query)) {
            Some(address) => Some(to_address_text(address)),
            None => None,
        }
    }

    /// Sets the address of a deployment.
    pub fn set_address(&mut self, id: &Uuid, address: String)
        ensures
            final(self)@ == (Command::SetAddress { id: *id, address }).applied(old(self)@),
            final(self).project_id == old(self).project_id,
    {
        self.tables.execute(&Command::SetAddress { id: *id, address });
    }

    /// Sets whether a deployment runs on the next runtime.
    pub fn set_is_next(&mut self, id: &Uuid, is_next: bool)
        ensures
            final(self)@ == (Command::SetIsNext { id: *id, is_next }).applied(old(self)@),
            final(self).project_id == old(self).project_id,
    {
        self.tables.execute(&Command::SetIsNext { id: *id, is_next });
    }

    /// The request to record resources of a service of this project, under a claim.
    pub fn insert_resources<C>(
        &self,
        resources: Vec<ResourceRecord>,
        service_id: &Ulid,
        claim: C,
    ) -> (request: Claimed<RecordRequest, C>)
        ensures
            request.message.project_id@ == ulid_text(self.project_id.value),
            request.message.service_id@ == ulid_text(service_id.value),
            request.message.resources == resources,
            request.claim == claim,
    {
        insert_resources(self.project_id, *service_id, resources, claim)
    }

    /// The fetching of the resources of a service of this project, step by step.
    pub fn get_resources(&self, service_id: &Ulid) -> (steps: GetResources)
        ensures
            steps.project_id == self.project_id,
            steps.service_id == *service_id,
    {
        GetResources { project_id: self.project_id, service_id: *service_id }
    }

    /// The resources of a service that are cached here.
    pub fn cached_resources(&self, service_id: &Ulid) -> (result: Vec<Resource>)
        ensures
            result@ == (ResourceQuery { service_id: *service_id }).rows(self@),
    {
        self.tables.fetch_resources(&ResourceQuery { service_id: *service_id })
    }
}

} // verus!
