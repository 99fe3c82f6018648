//! The tables, and what the queries read from them.

use crate::command::Command;
use crate::ids::Ulid;
use crate::order::{arrange, lemma_all_selected, predicate, select, selected, Condition};
use crate::query::{
    first_row, named, page, running_for, AddressQuery, BuildingQuery, ByKey, DeploymentQuery,
    LogQuery, NewestFirst, OldestFirst, ResourceQuery, RunnableQuery, SecretQuery, ServiceQuery,
};
use crate::rows::{
    copy_text, Deployment, DeploymentBuilding, DeploymentRunnable, Log, Resource, Row, Secret,
    Service,
};
use vstd::prelude::*;

verus! {

/// All tables.
pub struct Tables {
    pub services: Vec<Service>,
    pub deployments: Vec<Deployment>,
    pub logs: Vec<Log>,
    pub secrets: Vec<Secret>,
    pub resources: Vec<Resource>,
}

/// What the tables hold: the rows of each, in the order in which they were added.
#[verifier::ext_equal]
pub struct TablesView {
    pub services: Seq<Service>,
    pub deployments: Seq<Deployment>,
    pub logs: Seq<Log>,
    pub secrets: Seq<Secret>,
    pub resources: Seq<Resource>,
}

impl TablesView {
    /// Tables without a row.
    pub open spec fn empty() -> TablesView {
        TablesView {
            services: Seq::empty(),
            deployments: Seq::empty(),
            logs: Seq::empty(),
            secrets: Seq::empty(),
            resources: Seq::empty(),
        }
    }

    /// The service with a name.
    pub open spec fn service_named(self, name: Seq<char>) -> Option<Service> {
        first_row(self.services.filter(named(name)))
    }

    /// Whether looking for a service by its name, and creating it where there is none, can come
    /// back with `service` and leave the tables as `after`.
    pub open spec fn finds_or_creates(
        self,
        name: Seq<char>,
        service: Service,
        after: TablesView,
    ) -> bool {
        match self.service_named(name) {
            Some(existing) => service == existing && after == self,
            None => service.name@ == name && after == (Command::InsertService { service }).applied(
                self,
            ),
        }
    }

    /// A service that is found by its name has that name and stands in the table.
    pub proof fn lemma_service_named(self, name: Seq<char>)
        ensures
            self.service_named(name) matches Some(service) ==> service.name@ == name
                && self.services.contains(service),
    {
        broadcast use vstd::seq_lib::group_filter_ensures;

        let found = self.services.filter(named(name));
        if found.len() > 0 {
            assert(named(name)(found[0]));
            self.services.lemma_filter_contains_rev(named(name), found[0]);
        }
    }
}

impl View for Tables {
    type V = TablesView;

    open spec fn view(&self) -> TablesView {
        TablesView {
            services: self.services@,
            deployments: self.deployments@,
            logs: self.logs@,
            secrets: self.secrets@,
            resources: self.resources@,
        }
    }
}

/// A deployment together with its service.
pub struct Joined {
    pub deployment: Deployment,
    pub service: Service,
}

impl Row for Joined {
    fn copy(&self) -> (row: Self) {
        Joined { deployment: self.deployment.copy(), service: self.service.copy() }
    }
}

impl Joined {
    pub open spec fn as_runnable(self) -> DeploymentRunnable {
        DeploymentRunnable {
            id: self.deployment.id,
            service_name: self.service.name,
            service_id: self.deployment.service_id,
            is_next: self.deployment.is_next,
        }
    }

    pub fn to_runnable(&self) -> (result: DeploymentRunnable)
        ensures
            result == self.as_runnable(),
            result.id == self.deployment.id,
            result.service_name@ == self.service.name@,
            result.service_id == self.deployment.service_id,
            result.is_next == self.deployment.is_next,
    {
        DeploymentRunnable {
            id: self.deployment.id,
            service_name: self.service.name.clone(),
            service_id: self.deployment.service_id,
            is_next: self.deployment.is_next,
        }
    }

    pub open spec fn as_building(self) -> DeploymentBuilding {
        DeploymentBuilding {
            id: self.deployment.id,
            service_name: self.service.name,
            service_id: self.deployment.service_id,
            is_next: self.deployment.is_next,
        }
    }

    pub fn to_building(&self) -> (result: DeploymentBuilding)
        ensures
            result == self.as_building(),
            result.id == self.deployment.id,
            result.service_name@ == self.service.name@,
            result.service_id == self.deployment.service_id,
            result.is_next == self.deployment.is_next,
    {
        DeploymentBuilding {
            id: self.deployment.id,
            service_name: self.service.name.clone(),
            service_id: self.deployment.service_id,
            is_next: self.deployment.is_next,
        }
    }
}

/// The service with an identifier.
pub struct ServiceWithId {
    pub id: Ulid,
}

impl Condition<Service> for ServiceWithId {
    open spec fn holds(self, row: Service) -> bool {
        row.id == self.id
    }

    fn test(&self, row: &Service) -> (result: bool) {
        row.id == self.id
    }
}

/// A deployment with each service that it belongs to.
pub open spec fn joined_with(deployment: Deployment, services: Seq<Service>) -> Seq<Joined> {
    selected(services, ServiceWithId { id: deployment.service_id }).map_values(
        |service: Service| Joined { deployment, service },
    )
}

/// Each deployment with each service that it belongs to.
pub open spec fn joined(deployments: Seq<Deployment>, services: Seq<Service>) -> Seq<Joined>
    decreases deployments.len(),
{
    if deployments.len() == 0 {
        Seq::empty()
    } else {
        joined(deployments.drop_last(), services) + joined_with(deployments.last(), services)
    }
}

fn join_with(deployment: &Deployment, services: &Vec<Service>) -> (result: Vec<Joined>)
    ensures
        result@ == joined_with(*deployment, services@),
{
    let ghost wanted = selected(services@, ServiceWithId { id: deployment.service_id });
    let found = select(services, &ServiceWithId { id: deployment.service_id });
    let mut result: Vec<Joined> = Vec::new();
    for service in iter: found
        invariant
            iter.seq() == wanted,
            result@.len() == iter.index(),
            forall|i: int|
                0 <= i < result@.len() ==> #[trigger] result@[i] == (Joined {
                    deployment: *deployment,
                    service: wanted[i],
                }),
    {
        result.push(Joined { deployment: deployment.copy(), service });
    }
    assert(result@ =~= joined_with(*deployment, services@));
    result
}

/// Joins the deployments with their services.
pub fn join(deployments: &Vec<Deployment>, services: &Vec<Service>) -> (result: Vec<Joined>)
    ensures
        result@ == joined(deployments@, services@),
{
    let mut result: Vec<Joined> = Vec::new();
    let mut i: usize = 0;
    while i < deployments.len()
        invariant
            i <= deployments.len(),
            result@ == joined(deployments@.take(i as int), services@),
        decreases deployments.len() - i,
    {
        let mut links = join_with(&deployments[i], services);
        proof {
            assert(deployments@.take(i + 1).drop_last() =~= deployments@.take(i as int));
        }
        result.append(&mut links);
        i += 1;
    }
    assert(deployments@.take(i as int) =~= deployments@);
    result
}

/// Takes the first of the rows.
pub fn first<T>(rows: Vec<T>) -> (result: Option<T>)
    ensures
        result == first_row(rows@),
        rows@.len() == 0 ==> result is None,
        rows@.len() > 0 ==> result == Some(rows@[0]),
{
    let mut rows = rows;
    if rows.len() == 0 {
        None
    } else {
        Some(rows.swap_remove(0))
    }
}

/// Takes a stretch of the rows.
pub fn take_page<T>(rows: Vec<T>, offset: u32, limit: u32) -> (result: Vec<T>)
    ensures
        result@ == page(rows@, offset as nat, limit as nat),
        result@.len() == if rows@.len() <= offset {
            0
        } else if rows@.len() - offset < limit {
            rows@.len() - offset
        } else {
            limit as int
        },
        forall|k: int| 0 <= k < result@.len() ==> #[trigger] result@[k] == rows@[offset + k],
{
    let mut rows = rows;
    let mut rest: Vec<T> = if (offset as usize) < rows.len() {
        rows.split_off(offset as usize)
    } else {
        Vec::new()
    };
    if (limit as usize) < rest.len() {
        rest.truncate(limit as usize);
    }
    rest
}

impl Tables {
    /// Tables without a row.
    pub fn new() -> (tables: Tables)
        ensures
            tables@ == TablesView::empty(),
    {
        Tables {
            services: Vec::new(),
            deployments: Vec::new(),
            logs: Vec::new(),
            secrets: Vec::new(),
            resources: Vec::new(),
        }
    }

    pub fn fetch_deployments(&self, query: &DeploymentQuery) -> (rows: Vec<Deployment>)
        ensures
            rows@ == query.rows(self@),
    {
        let matching = select(&self.deployments, query);
        match query {
            DeploymentQuery::Page { offset, limit, .. } => take_page(
                arrange(matching, &NewestFirst),
                *offset,
                *limit,
            ),
            _ => matching,
        }
    }

    pub fn fetch_runnable(&self, query: &RunnableQuery) -> (rows: Vec<DeploymentRunnable>)
        ensures
            rows@ == query.rows(self@),
    {
        let links = join(&self.deployments, &self.services);
        let matching = select(&links, query);
        let found = match query {
            RunnableQuery::All => arrange(matching, &NewestFirst),
            RunnableQuery::WithId { .. } => matching,
        };
        let mut rows: Vec<DeploymentRunnable> = Vec::new();
        let mut i: usize = 0;
        while i < found.len()
            invariant
                i <= found.len(),
                rows@.len() == i,
                forall|j: int| 0 <= j < i ==> #[trigger] rows@[j] == found@[j].as_runnable(),
            decreases found.len() - i,
        {
            rows.push(found[i].to_runnable());
            i += 1;
        }
        assert(rows@ =~= query.rows(self@));
        rows
    }

    pub fn fetch_building(&self, query: &BuildingQuery) -> (rows: Vec<DeploymentBuilding>)
        ensures
            rows@ == query.rows(self@),
    {
        let links = join(&self.deployments, &self.services);
        let matching = select(&links, query);
        let found = match query {
            BuildingQuery::All => arrange(matching, &NewestFirst),
            BuildingQuery::WithId { .. } => matching,
        };
        let mut rows: Vec<DeploymentBuilding> = Vec::new();
        let mut i: usize = 0;
        while i < found.len()
            invariant
                i <= found.len(),
                rows@.len() == i,
                forall|j: int| 0 <= j < i ==> #[trigger] rows@[j] == found@[j].as_building(),
            decreases found.len() - i,
        {
            rows.push(found[i].to_building());
            i += 1;
        }
        assert(rows@ =~= query.rows(self@));
        rows
    }

    pub fn fetch_addresses(&self, query: &AddressQuery) -> (rows: Vec<Option<String>>)
        ensures
            rows@ == query.rows(self@),
    {
        let links = join(&self.deployments, &self.services);
        assert(predicate(*query) =~= running_for(query.service_name@));
        let found = arrange(select(&links, query), &OldestFirst);
        let mut rows: Vec<Option<String>> = Vec::new();
        let mut i: usize = 0;
        while i < found.len()
            invariant
                i <= found.len(),
                rows@.len() == i,
                forall|j: int| 0 <= j < i ==> #[trigger] rows@[j] == found@[j].deployment.address,
            decreases found.len() - i,
        {
            rows.push(copy_text(&found[i].deployment.address));
            i += 1;
        }
        assert(rows@ =~= query.rows(self@));
        rows
    }

    pub fn fetch_services(&self, query: &ServiceQuery) -> (rows: Vec<Service>)
        ensures
            rows@ == query.rows(self@),
    {
        proof {
            match query {
                ServiceQuery::Named { name } => {
                    assert(predicate(*query) =~= named(name@));
                },
                ServiceQuery::All => {
                    lemma_all_selected(self.services@, *query);
                },
            }
        }
        select(&self.services, query)
    }

    pub fn fetch_logs(&self, query: &LogQuery) -> (rows: Vec<Log>)
        ensures
            rows@ == query.rows(self@),
    {
        arrange(select(&self.logs, query), &OldestFirst)
    }

    pub fn fetch_secrets(&self, query: &SecretQuery) -> (rows: Vec<Secret>)
        ensures
            rows@ == query.rows(self@),
    {
        arrange(select(&self.secrets, query), &ByKey)
    }

    pub fn fetch_resources(&self, query: &ResourceQuery) -> (rows: Vec<Resource>)
        ensures
            rows@ == query.rows(self@),
    {
        select(&self.resources, query)
    }
}

} // verus!
