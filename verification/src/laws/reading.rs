//! What the queries read, told by the rows that are stored: which of them come, with which
//! columns, and in which order.

use crate::ids::{Ulid, Uuid};
use crate::order::{lemma_ordered_from, ordered, predicate, Order};
use crate::query::{
    first_row, named, running_for, running_rows, AddressQuery, BuildingQuery, ByKey,
    DeploymentQuery, LogQuery, NewestFirst, OldestFirst, ResourceQuery, RunnableQuery, SecretQuery,
    ServiceQuery,
};
use crate::rows::{Deployment, Resource, Service, State};
use crate::tables::{joined, joined_with, Joined, ServiceWithId, TablesView};
use crate::text_order::{bytes_before, lemma_bytes_order_total};
use vstd::prelude::*;
use vstd::utf8::{encode_utf8, encode_utf8_decode_utf8};

verus! {

/// Of the rows that were found the first one is taken, and none only where none was found.
pub proof fn law_first_row_is_taken<T>(rows: Seq<T>)
    ensures
        rows.len() == 0 ==> first_row(rows) is None,
        rows.len() > 0 ==> first_row(rows) == Some(rows[0]),
{
}

/// A deployment is looked for among all deployments, by its identifier and nothing else.
pub proof fn law_deployments_are_found_by_id(tables: TablesView, id: Uuid)
    ensures
        (DeploymentQuery::WithId { id }).rows(tables) == tables.deployments.filter(
            |row: Deployment| row.id == id,
        ),
{
    assert(predicate(DeploymentQuery::WithId { id }) =~= |row: Deployment| row.id == id);
}

/// What a look for a deployment by its identifier comes back with: a stored deployment with that
/// identifier, the first one, and nothing only where none has it.
pub proof fn law_found_deployment_has_the_id(tables: TablesView, id: Uuid)
    ensures
        match first_row((DeploymentQuery::WithId { id }).rows(tables)) {
            Some(row) => exists|i: int|
                0 <= i < tables.deployments.len() && #[trigger] tables.deployments[i] == row
                    && row.id == id && forall|j: int|
                    0 <= j < i ==> (#[trigger] tables.deployments[j]).id != id,
            None => forall|i: int|
                0 <= i < tables.deployments.len() ==> (#[trigger] tables.deployments[i]).id != id,
        },
{
    law_deployments_are_found_by_id(tables, id);
    lemma_first_of_filter(tables.deployments, |row: Deployment| row.id == id);
}

/// The active deployments of a service are its running ones, in the order of the table.
pub proof fn law_active_deployments_are_those_running(tables: TablesView, service_id: Ulid)
    ensures
        (DeploymentQuery::Active { service_id }).rows(tables) == tables.deployments.filter(
            |row: Deployment| row.service_id == service_id && row.state == State::Running,
        ),
{
    assert(predicate(DeploymentQuery::Active { service_id }) =~= |row: Deployment|
        row.service_id == service_id && row.state == State::Running);
}

/// What a look for the active deployment of a service comes back with: the first stored
/// deployment of the service that is running, and nothing only where none is.
pub proof fn law_active_deployment_is_the_first_running(tables: TablesView, service_id: Ulid)
    ensures
        match first_row((DeploymentQuery::Active { service_id }).rows(tables)) {
            Some(row) => exists|i: int|
                0 <= i < tables.deployments.len() && #[trigger] tables.deployments[i] == row
                    && row.service_id == service_id && row.state == State::Running && forall|
                    j: int,
                |
                    0 <= j < i ==> (#[trigger] tables.deployments[j]).service_id != service_id
                        || tables.deployments[j].state != State::Running,
            None => forall|i: int|
                0 <= i < tables.deployments.len() ==> (#[trigger] tables.deployments[i]).service_id
                    != service_id || tables.deployments[i].state != State::Running,
        },
{
    law_active_deployments_are_those_running(tables, service_id);
    lemma_first_of_filter(
        tables.deployments,
        |row: Deployment| row.service_id == service_id && row.state == State::Running,
    );
}

proof fn lemma_first_of_filter<T>(rows: Seq<T>, p: spec_fn(T) -> bool)
    ensures
        rows.filter(p).len() > 0 ==> exists|i: int|
            0 <= i < rows.len() && #[trigger] rows[i] == rows.filter(p)[0] && p(rows[i]) && forall|
                j: int,
            |
                0 <= j < i ==> !p(#[trigger] rows[j]),
        rows.filter(p).len() == 0 ==> forall|i: int| 0 <= i < rows.len() ==> !p(#[trigger] rows[i]),
{
    let from = lemma_filter_from(rows, p);
    if rows.filter(p).len() > 0 {
        assert forall|j: int| 0 <= j < from[0] implies !p(#[trigger] rows[j]) by {
            if p(rows[j]) {
                let k = choose|k: int| 0 <= k < from.len() && from[k] == j;
                assert(from[0] <= from[k]);
            }
        }
        assert(rows[from[0]] == rows.filter(p)[0]);
    } else {
        assert forall|i: int| 0 <= i < rows.len() implies !p(#[trigger] rows[i]) by {
            if p(rows[i]) {
                assert(from.contains(i));
            }
        }
    }
}

/// Where selected rows come from: `from` names each place of a row that meets the condition, in
/// the order of the table.
pub proof fn lemma_filter_from<T>(rows: Seq<T>, p: spec_fn(T) -> bool) -> (from: Seq<int>)
    ensures
        from.len() == rows.filter(p).len(),
        forall|k: int|
            0 <= k < from.len() ==> 0 <= #[trigger] from[k] < rows.len() && rows.filter(p)[k]
                == rows[from[k]] && p(rows[from[k]]),
        forall|k: int, l: int|
            0 <= k < l < from.len() ==> #[trigger] from[k] < #[trigger] from[l],
        forall|i: int| 0 <= i < rows.len() && p(#[trigger] rows[i]) ==> from.contains(i),
    decreases rows.len(),
{
    reveal(Seq::filter);
    if rows.len() == 0 {
        Seq::empty()
    } else {
        let rest = rows.drop_last();
        let n = rest.len() as int;
        let before = lemma_filter_from(rest, p);
        assert forall|k: int| 0 <= k < before.len() implies rows[#[trigger] before[k]]
            == rest[before[k]] by {}
        let from = if p(rows.last()) {
            before.push(n)
        } else {
            before
        };
        assert forall|i: int| 0 <= i < rows.len() && p(#[trigger] rows[i]) implies from.contains(
            i,
        ) by {
            if i < n {
                assert(p(rest[i]));
                let k = choose|k: int| 0 <= k < before.len() && before[k] == i;
                assert(from[k] == i);
            } else {
                assert(from[before.len() as int] == n);
            }
        }
        from
    }
}

/// Where ordered rows of a selection come from: `from` names each place of a row that meets the
/// condition, once.
proof fn lemma_ordered_filter_from<T, O: Order<T>>(
    rows: Seq<T>,
    p: spec_fn(T) -> bool,
    order: O,
) -> (from: Seq<int>)
    ensures
        from.len() == ordered(rows.filter(p), order).len(),
        forall|k: int|
            0 <= k < from.len() ==> 0 <= #[trigger] from[k] < rows.len() && ordered(
                rows.filter(p),
                order,
            )[k] == rows[from[k]] && p(rows[from[k]]),
        forall|k: int, l: int|
            0 <= k < l < from.len() ==> #[trigger] from[k] != #[trigger] from[l] && !order.precedes(
                rows[from[l]],
                rows[from[k]],
            ) && (order.precedes(rows[from[k]], rows[from[l]]) || from[k] < from[l]),
        forall|i: int| 0 <= i < rows.len() && p(#[trigger] rows[i]) ==> from.contains(i),
{
    let found = rows.filter(p);
    let inner = lemma_filter_from(rows, p);
    let outer = lemma_ordered_from(found, order);
    let from = Seq::new(outer.len(), |k: int| inner[outer[k]]);
    assert forall|k: int| 0 <= k < from.len() implies 0 <= #[trigger] from[k] < rows.len()
        && ordered(found, order)[k] == rows[from[k]] && p(rows[from[k]]) by {
        assert(0 <= outer[k] < inner.len());
        assert(from[k] == inner[outer[k]]);
    }
    assert forall|k: int, l: int| 0 <= k < l < from.len() implies #[trigger] from[k]
        != #[trigger] from[l] && !order.precedes(rows[from[l]], rows[from[k]]) && (order.precedes(
        rows[from[k]],
        rows[from[l]],
    ) || from[k] < from[l]) by {
        let (a, b) = (outer[k], outer[l]);
        assert(0 <= a < inner.len() && 0 <= b < inner.len());
        assert(a != b);
        assert(from[k] == inner[a] && from[l] == inner[b]);
        assert(found[a] == rows[inner[a]] && found[b] == rows[inner[b]]);
        if a < b {
            assert(inner[a] < inner[b]);
        } else {
            assert(inner[b] < inner[a]);
        }
    }
    assert forall|i: int| 0 <= i < rows.len() && p(#[trigger] rows[i]) implies from.contains(i) by {
        assert(inner.contains(i));
        let m = choose|m: int| 0 <= m < inner.len() && inner[m] == i;
        assert(outer.contains(m));
        let k = choose|k: int| 0 <= k < outer.len() && outer[k] == m;
        assert(from[k] == i);
    }
    from
}

/// A page holds the deployments of a service and no others, from the latest update to the
/// earliest, and of those with the same time the one that was stored first comes first. `from`
/// names the place of each deployment of the service, once; the page leaves out `offset` of them
/// and holds at most `limit` of the rest.
pub proof fn law_page_of_stored_deployments(
    tables: TablesView,
    service_id: Ulid,
    offset: u32,
    limit: u32,
) -> (from: Seq<int>)
    ensures
        ({
            let stored = tables.deployments;
            let rows = (DeploymentQuery::Page { service_id, offset, limit }).rows(tables);
            &&& forall|k: int|
                0 <= k < from.len() ==> 0 <= #[trigger] from[k] < stored.len()
                    && stored[from[k]].service_id == service_id
            &&& forall|i: int|
                0 <= i < stored.len() && (#[trigger] stored[i]).service_id == service_id
                    ==> from.contains(i)
            &&& forall|k: int, l: int|
                0 <= k < l < from.len() ==> {
                    let a = stored[#[trigger] from[k]].last_update;
                    let b = stored[#[trigger] from[l]].last_update;
                    a.secs > b.secs || (a.secs == b.secs && a.nanos > b.nanos) || (a.secs == b.secs
                        && a.nanos == b.nanos && from[k] < from[l])
                }
            &&& rows.len() == if from.len() <= offset {
                0
            } else if from.len() - offset < limit {
                from.len() - offset
            } else {
                limit as int
            }
            &&& forall|k: int|
                0 <= k < rows.len() ==> #[trigger] rows[k] == stored[from[offset + k]]
        }),
{
    let query = DeploymentQuery::Page { service_id, offset, limit };
    lemma_ordered_filter_from(tables.deployments, predicate(query), NewestFirst)
}

/// On a page no deployment stands before one with a later update.
pub proof fn law_page_comes_latest_first(
    tables: TablesView,
    service_id: Ulid,
    offset: u32,
    limit: u32,
)
    ensures
        ({
            let rows = (DeploymentQuery::Page { service_id, offset, limit }).rows(tables);
            forall|k: int, l: int|
                0 <= k < l < rows.len() ==> {
                    let a = (#[trigger] rows[k]).last_update;
                    let b = (#[trigger] rows[l]).last_update;
                    a.secs > b.secs || (a.secs == b.secs && a.nanos >= b.nanos)
                }
        }),
{
    let from = law_page_of_stored_deployments(tables, service_id, offset, limit);
    let rows = (DeploymentQuery::Page { service_id, offset, limit }).rows(tables);
    assert forall|k: int, l: int| 0 <= k < l < rows.len() implies {
        let a = (#[trigger] rows[k]).last_update;
        let b = (#[trigger] rows[l]).last_update;
        a.secs > b.secs || (a.secs == b.secs && a.nanos >= b.nanos)
    } by {
        assert(rows[k] == tables.deployments[from[offset + k]]);
        assert(rows[l] == tables.deployments[from[offset + l]]);
    }
}

/// The logs of a deployment are all stored logs with its identifier and no others, from the
/// earliest to the latest, and of those with the same time the one that was stored first comes
/// first.
pub proof fn law_logs_of_stored_logs(tables: TablesView, id: Uuid) -> (from: Seq<int>)
    ensures
        ({
            let stored = tables.logs;
            let rows = (LogQuery { id }).rows(tables);
            &&& from.len() == rows.len()
            &&& forall|k: int|
                0 <= k < from.len() ==> 0 <= #[trigger] from[k] < stored.len() && rows[k]
                    == stored[from[k]] && stored[from[k]].id == id
            &&& forall|i: int|
                0 <= i < stored.len() && (#[trigger] stored[i]).id == id ==> from.contains(i)
            &&& forall|k: int, l: int|
                0 <= k < l < from.len() ==> {
                    let a = stored[#[trigger] from[k]].timestamp;
                    let b = stored[#[trigger] from[l]].timestamp;
                    a.secs < b.secs || (a.secs == b.secs && a.nanos < b.nanos) || (a.secs == b.secs
                        && a.nanos == b.nanos && from[k] < from[l])
                }
        }),
{
    lemma_ordered_filter_from(tables.logs, predicate(LogQuery { id }), OldestFirst)
}

/// Whether bytes come before others in the dictionary: at the first place where they differ the
/// smaller byte, or the end, is theirs.
pub open spec fn differs_below(a: Seq<u8>, b: Seq<u8>, at: int) -> bool {
    &&& 0 <= at <= a.len()
    &&& at < b.len()
    &&& forall|i: int| 0 <= i < at ==> #[trigger] a[i] == b[i]
    &&& at == a.len() || a[at] < b[at]
}

/// The order of bytes is that of a dictionary.
pub proof fn law_bytes_come_as_in_a_dictionary(a: Seq<u8>, b: Seq<u8>)
    ensures
        bytes_before(a, b) <==> exists|at: int| #[trigger] differs_below(a, b, at),
    decreases b.len(),
{
    if b.len() > 0 && a.len() > 0 {
        let (x, y) = (a.drop_first(), b.drop_first());
        law_bytes_come_as_in_a_dictionary(x, y);
        if bytes_before(a, b) {
            if a[0] < b[0] {
                assert(differs_below(a, b, 0));
            } else {
                let at = choose|at: int| #[trigger] differs_below(x, y, at);
                assert forall|i: int| 0 <= i < at + 1 implies #[trigger] a[i] == b[i] by {
                    if i > 0 {
                        assert(x[i - 1] == y[i - 1]);
                    }
                }
                assert(differs_below(a, b, at + 1));
            }
        }
        if exists|at: int| #[trigger] differs_below(a, b, at) {
            let at = choose|at: int| #[trigger] differs_below(a, b, at);
            if at > 0 {
                assert(a[0] == b[0]);
                assert forall|i: int| 0 <= i < at - 1 implies #[trigger] x[i] == y[i] by {
                    assert(a[i + 1] == b[i + 1]);
                }
                assert(differs_below(x, y, at - 1));
            }
        }
    } else if b.len() > 0 {
        assert(differs_below(a, b, 0));
    }
}

/// The secrets of a service are all stored secrets of the service and no others, by the bytes of
/// their keys, and of those with the same key the one that was stored first comes first.
pub proof fn law_secrets_of_stored_secrets(tables: TablesView, service_id: Ulid) -> (from: Seq<int>)
    ensures
        ({
            let stored = tables.secrets;
            let rows = (SecretQuery { service_id }).rows(tables);
            &&& from.len() == rows.len()
            &&& forall|k: int|
                0 <= k < from.len() ==> 0 <= #[trigger] from[k] < stored.len() && rows[k]
                    == stored[from[k]] && stored[from[k]].service_id == service_id
            &&& forall|i: int|
                0 <= i < stored.len() && (#[trigger] stored[i]).service_id == service_id
                    ==> from.contains(i)
            &&& forall|k: int, l: int|
                0 <= k < l < from.len() ==> {
                    let a = stored[#[trigger] from[k]].key@;
                    let b = stored[#[trigger] from[l]].key@;
                    (a == b && from[k] < from[l]) || exists|at: int| #[trigger]
                        differs_below(encode_utf8(a), encode_utf8(b), at)
                }
        }),
{
    let stored = tables.secrets;
    let from = lemma_ordered_filter_from(stored, predicate(SecretQuery { service_id }), ByKey);
    assert forall|k: int, l: int| 0 <= k < l < from.len() implies {
        let a = stored[#[trigger] from[k]].key@;
        let b = stored[#[trigger] from[l]].key@;
        (a == b && from[k] < from[l]) || exists|at: int| #[trigger]
            differs_below(encode_utf8(a), encode_utf8(b), at)
    } by {
        let a = stored[from[k]].key@;
        let b = stored[from[l]].key@;
        law_bytes_come_as_in_a_dictionary(encode_utf8(a), encode_utf8(b));
        if !bytes_before(encode_utf8(a), encode_utf8(b)) {
            lemma_bytes_order_total(encode_utf8(a), encode_utf8(b));
            encode_utf8_decode_utf8(a);
            encode_utf8_decode_utf8(b);
        }
    }
    from
}

/// The cached resources of a service are those that are stored for it, in the order of the table.
pub proof fn law_resources_of_stored_resources(tables: TablesView, service_id: Ulid)
    ensures
        (ResourceQuery { service_id }).rows(tables) == tables.resources.filter(
            |row: Resource| row.service_id == service_id,
        ),
{
    assert(predicate(ResourceQuery { service_id }) =~= |row: Resource|
        row.service_id == service_id);
}

/// Services are looked for by the whole name, and all services are all that are stored.
pub proof fn law_services_of_stored_services(tables: TablesView, name: String)
    ensures
        (ServiceQuery::Named { name }).rows(tables) == tables.services.filter(
            |row: Service| row.name@ == name@,
        ),
        ServiceQuery::All.rows(tables) == tables.services,
{
    assert(named(name@) =~= |row: Service| row.name@ == name@);
}

/// What a look for a service by its name comes back with: the first stored service with exactly
/// that name, and nothing only where none has it.
pub proof fn law_found_service_has_the_name(tables: TablesView, name: Seq<char>)
    ensures
        match tables.service_named(name) {
            Some(row) => exists|i: int|
                0 <= i < tables.services.len() && #[trigger] tables.services[i] == row && row.name@
                    == name && forall|j: int|
                    0 <= j < i ==> (#[trigger] tables.services[j]).name@ != name,
            None => forall|i: int|
                0 <= i < tables.services.len() ==> (#[trigger] tables.services[i]).name@ != name,
        },
{
    assert(named(name) =~= |row: Service| row.name@ == name);
    lemma_first_of_filter(tables.services, |row: Service| row.name@ == name);
}

/// Whether one pair of places stands before another.
pub open spec fn stands_before(a: (int, int), b: (int, int)) -> bool {
    a.0 < b.0 || (a.0 == b.0 && a.1 < b.1)
}

/// Whether a pair names a stored deployment and the service that it belongs to.
pub open spec fn names_link(tables: TablesView, at: (int, int)) -> bool {
    &&& 0 <= at.0 < tables.deployments.len()
    &&& 0 <= at.1 < tables.services.len()
    &&& tables.services[at.1].id == tables.deployments[at.0].service_id
}

/// Where joined rows come from: `from` names each pair of a deployment and a service that belong
/// together, in the order of the tables.
proof fn lemma_joined_from(deployments: Seq<Deployment>, services: Seq<Service>) -> (from: Seq<
    (int, int),
>)
    ensures
        from.len() == joined(deployments, services).len(),
        forall|k: int|
            0 <= k < from.len() ==> {
                let at = #[trigger] from[k];
                &&& 0 <= at.0 < deployments.len()
                &&& 0 <= at.1 < services.len()
                &&& services[at.1].id == deployments[at.0].service_id
                &&& joined(deployments, services)[k].deployment == deployments[at.0]
                &&& joined(deployments, services)[k].service == services[at.1]
            },
        forall|k: int, l: int|
            0 <= k < l < from.len() ==> stands_before(#[trigger] from[k], #[trigger] from[l]),
        forall|at: (int, int)|
            0 <= at.0 < deployments.len() && 0 <= at.1 < services.len() && services[at.1].id
                == deployments[at.0].service_id ==> #[trigger] from.contains(at),
    decreases deployments.len(),
{
    if deployments.len() == 0 {
        Seq::empty()
    } else {
        let rest = deployments.drop_last();
        let last = deployments.last();
        let n = rest.len() as int;
        let p = predicate(ServiceWithId { id: last.service_id });
        let before = lemma_joined_from(rest, services);
        let found = lemma_filter_from(services, p);
        let more = Seq::new(found.len(), |k: int| (n, found[k]));
        let from = before + more;
        let all = joined(deployments, services);
        let front = joined(rest, services);
        assert forall|k: int| 0 <= k < from.len() implies {
            let at = #[trigger] from[k];
            &&& 0 <= at.0 < deployments.len()
            &&& 0 <= at.1 < services.len()
            &&& services[at.1].id == deployments[at.0].service_id
            &&& all[k].deployment == deployments[at.0]
            &&& all[k].service == services[at.1]
        } by {
            if k < before.len() {
                assert(from[k] == before[k]);
                assert(rest[before[k].0] == deployments[before[k].0]);
            } else {
                let m = k - before.len();
                assert(from[k] == (n, found[m]));
                assert(all[k] == joined_with(last, services)[m]);
            }
        }
        assert forall|k: int, l: int| 0 <= k < l < from.len() implies stands_before(
            #[trigger] from[k],
            #[trigger] from[l],
        ) by {
            if l < before.len() {
                assert(from[k] == before[k] && from[l] == before[l]);
            } else if k < before.len() {
                assert(from[k] == before[k] && from[l] == (n, found[l - before.len()]));
            } else {
                assert(from[k] == (n, found[k - before.len()]));
                assert(from[l] == (n, found[l - before.len()]));
            }
        }
        assert forall|at: (int, int)|
            0 <= at.0 < deployments.len() && 0 <= at.1 < services.len() && services[at.1].id
                == deployments[at.0].service_id implies #[trigger] from.contains(at) by {
            if at.0 < n {
                assert(rest[at.0] == deployments[at.0]);
                assert(before.contains(at));
                let k = choose|k: int| 0 <= k < before.len() && before[k] == at;
                assert(from[k] == at);
            } else {
                assert(p(services[at.1]));
                let m = choose|m: int| 0 <= m < found.len() && found[m] == at.1;
                assert(from[before.len() + m] == at);
            }
        }
        from
    }
}

/// Where ordered rows of a selection of joined rows come from.
proof fn lemma_links_from<O: Order<Joined>>(
    tables: TablesView,
    p: spec_fn(Joined) -> bool,
    order: O,
) -> (from: Seq<(int, int)>)
    ensures
        ({
            let rows = ordered(joined(tables.deployments, tables.services).filter(p), order);
            let link = |at: (int, int)|
                Joined { deployment: tables.deployments[at.0], service: tables.services[at.1] };
            &&& from.len() == rows.len()
            &&& forall|k: int|
                0 <= k < from.len() ==> names_link(tables, #[trigger] from[k]) && rows[k] == link(
                    from[k],
                ) && p(link(from[k]))
            &&& forall|k: int, l: int|
                0 <= k < l < from.len() ==> #[trigger] from[k] != #[trigger] from[l]
                    && !order.precedes(link(from[l]), link(from[k])) && (order.precedes(
                    link(from[k]),
                    link(from[l]),
                ) || stands_before(from[k], from[l]))
            &&& forall|at: (int, int)|
                names_link(tables, at) && p(link(at)) ==> #[trigger] from.contains(at)
        }),
{
    let links = joined(tables.deployments, tables.services);
    let link = |at: (int, int)|
        Joined { deployment: tables.deployments[at.0], service: tables.services[at.1] };
    let rows = ordered(links.filter(p), order);
    let pairs = lemma_joined_from(tables.deployments, tables.services);
    let places = lemma_ordered_filter_from(links, p, order);
    let from = Seq::new(places.len(), |k: int| pairs[places[k]]);
    assert forall|m: int| 0 <= m < pairs.len() implies links[m] == link(#[trigger] pairs[m]) by {}
    assert forall|k: int| 0 <= k < from.len() implies names_link(tables, #[trigger] from[k])
        && rows[k] == link(from[k]) && p(link(from[k])) by {
        assert(0 <= places[k] < links.len());
        assert(from[k] == pairs[places[k]]);
    }
    assert forall|k: int, l: int| 0 <= k < l < from.len() implies #[trigger] from[k]
        != #[trigger] from[l] && !order.precedes(link(from[l]), link(from[k])) && (order.precedes(
        link(from[k]),
        link(from[l]),
    ) || stands_before(from[k], from[l])) by {
        let (a, b) = (places[k], places[l]);
        assert(0 <= a < links.len() && 0 <= b < links.len() && a != b);
        assert(from[k] == pairs[a] && from[l] == pairs[b]);
        assert(links[a] == link(pairs[a]) && links[b] == link(pairs[b]));
        if a < b {
            assert(stands_before(pairs[a], pairs[b]));
        } else {
            assert(stands_before(pairs[b], pairs[a]));
        }
    }
    assert forall|at: (int, int)|
        names_link(tables, at) && p(link(at)) implies #[trigger] from.contains(at) by {
        assert(pairs.contains(at));
        let m = choose|m: int| 0 <= m < pairs.len() && pairs[m] == at;
        assert(links[m] == link(at));
        assert(places.contains(m));
        let k = choose|k: int| 0 <= k < places.len() && places[k] == m;
        assert(from[k] == at);
    }
    from
}

/// All running deployments whose service is stored are handed out to be started, and no others,
/// each with its own identifier, service and flag and with the name of that service, from the
/// latest update to the earliest.
pub proof fn law_runnable_rows_of_stored_rows(tables: TablesView) -> (from: Seq<(int, int)>)
    ensures
        ({
            let rows = RunnableQuery::All.rows(tables);
            &&& from.len() == rows.len()
            &&& forall|k: int|
                0 <= k < from.len() ==> {
                    let at = #[trigger] from[k];
                    &&& names_link(tables, at)
                    &&& tables.deployments[at.0].state == State::Running
                    &&& rows[k].id == tables.deployments[at.0].id
                    &&& rows[k].service_id == tables.deployments[at.0].service_id
                    &&& rows[k].is_next == tables.deployments[at.0].is_next
                    &&& rows[k].service_name@ == tables.services[at.1].name@
                }
            &&& forall|at: (int, int)|
                names_link(tables, at) && tables.deployments[at.0].state == State::Running
                    ==> #[trigger] from.contains(at)
            &&& forall|k: int, l: int|
                0 <= k < l < from.len() ==> {
                    let a = tables.deployments[(#[trigger] from[k]).0].last_update;
                    let b = tables.deployments[(#[trigger] from[l]).0].last_update;
                    a.secs > b.secs || (a.secs == b.secs && a.nanos > b.nanos) || (a.secs == b.secs
                        && a.nanos == b.nanos && stands_before(from[k], from[l]))
                }
        }),
{
    lemma_links_from(tables, predicate(RunnableQuery::All), NewestFirst)
}

/// All deployments that are being built and whose service is stored are handed out to be built
/// again, and no others, each with its own identifier, service and flag and with the name of that
/// service, from the latest update to the earliest.
pub proof fn law_building_rows_of_stored_rows(tables: TablesView) -> (from: Seq<(int, int)>)
    ensures
        ({
            let rows = BuildingQuery::All.rows(tables);
            &&& from.len() == rows.len()
            &&& forall|k: int|
                0 <= k < from.len() ==> {
                    let at = #[trigger] from[k];
                    &&& names_link(tables, at)
                    &&& tables.deployments[at.0].state == State::Building
                    &&& rows[k].id == tables.deployments[at.0].id
                    &&& rows[k].service_id == tables.deployments[at.0].service_id
                    &&& rows[k].is_next == tables.deployments[at.0].is_next
                    &&& rows[k].service_name@ == tables.services[at.1].name@
                }
            &&& forall|at: (int, int)|
                names_link(tables, at) && tables.deployments[at.0].state == State::Building
                    ==> #[trigger] from.contains(at)
            &&& forall|k: int, l: int|
                0 <= k < l < from.len() ==> {
                    let a = tables.deployments[(#[trigger] from[k]).0].last_update;
                    let b = tables.deployments[(#[trigger] from[l]).0].last_update;
                    a.secs > b.secs || (a.secs == b.secs && a.nanos > b.nanos) || (a.secs == b.secs
                        && a.nanos == b.nanos && stands_before(from[k], from[l]))
                }
        }),
{
    lemma_links_from(tables, predicate(BuildingQuery::All), NewestFirst)
}

/// A single deployment is handed out to be started where it has the identifier asked for, is
/// running, was stopped or is completed, and its service is stored: with its own identifier,
/// service and flag and with the name of that service.
pub proof fn law_runnable_row_of_stored_rows(tables: TablesView, id: Uuid) -> (from: Seq<
    (int, int),
>)
    ensures
        ({
            let rows = (RunnableQuery::WithId { id }).rows(tables);
            &&& from.len() == rows.len()
            &&& forall|k: int|
                0 <= k < from.len() ==> {
                    let at = #[trigger] from[k];
                    let state = tables.deployments[at.0].state;
                    &&& names_link(tables, at)
                    &&& state == State::Running || state == State::Stopped || state
                        == State::Completed
                    &&& tables.deployments[at.0].id == id
                    &&& rows[k].id == id
                    &&& rows[k].service_id == tables.deployments[at.0].service_id
                    &&& rows[k].is_next == tables.deployments[at.0].is_next
                    &&& rows[k].service_name@ == tables.services[at.1].name@
                }
            &&& forall|at: (int, int)|
                names_link(tables, at) && tables.deployments[at.0].id == id && (
                tables.deployments[at.0].state == State::Running || tables.deployments[at.0].state
                    == State::Stopped || tables.deployments[at.0].state == State::Completed)
                    ==> #[trigger] from.contains(at)
            &&& forall|k: int, l: int|
                0 <= k < l < from.len() ==> stands_before(#[trigger] from[k], #[trigger] from[l])
        }),
{
    lemma_selected_links_from(tables, predicate(RunnableQuery::WithId { id }))
}

/// A single deployment is handed out to be built again where it has the identifier asked for, is
/// being built, and its service is stored: with its own identifier, service and flag and with the
/// name of that service.
pub proof fn law_building_row_of_stored_rows(tables: TablesView, id: Uuid) -> (from: Seq<
    (int, int),
>)
    ensures
        ({
            let rows = (BuildingQuery::WithId { id }).rows(tables);
            &&& from.len() == rows.len()
            &&& forall|k: int|
                0 <= k < from.len() ==> {
                    let at = #[trigger] from[k];
                    &&& names_link(tables, at)
                    &&& tables.deployments[at.0].state == State::Building
                    &&& tables.deployments[at.0].id == id
                    &&& rows[k].id == id
                    &&& rows[k].service_id == tables.deployments[at.0].service_id
                    &&& rows[k].is_next == tables.deployments[at.0].is_next
                    &&& rows[k].service_name@ == tables.services[at.1].name@
                }
            &&& forall|at: (int, int)|
                names_link(tables, at) && tables.deployments[at.0].id == id
                    && tables.deployments[at.0].state == State::Building
                    ==> #[trigger] from.contains(at)
            &&& forall|k: int, l: int|
                0 <= k < l < from.len() ==> stands_before(#[trigger] from[k], #[trigger] from[l])
        }),
{
    lemma_selected_links_from(tables, predicate(BuildingQuery::WithId { id }))
}

/// Where a selection of joined rows comes from.
proof fn lemma_selected_links_from(tables: TablesView, p: spec_fn(Joined) -> bool) -> (from: Seq<
    (int, int),
>)
    ensures
        ({
            let rows = joined(tables.deployments, tables.services).filter(p);
            let link = |at: (int, int)|
                Joined { deployment: tables.deployments[at.0], service: tables.services[at.1] };
            &&& from.len() == rows.len()
            &&& forall|k: int|
                0 <= k < from.len() ==> names_link(tables, #[trigger] from[k]) && rows[k] == link(
                    from[k],
                ) && p(link(from[k]))
            &&& forall|k: int, l: int|
                0 <= k < l < from.len() ==> stands_before(#[trigger] from[k], #[trigger] from[l])
            &&& forall|at: (int, int)|
                names_link(tables, at) && p(link(at)) ==> #[trigger] from.contains(at)
        }),
{
    let links = joined(tables.deployments, tables.services);
    let link = |at: (int, int)|
        Joined { deployment: tables.deployments[at.0], service: tables.services[at.1] };
    let pairs = lemma_joined_from(tables.deployments, tables.services);
    let places = lemma_filter_from(links, p);
    let from = Seq::new(places.len(), |k: int| pairs[places[k]]);
    assert forall|m: int| 0 <= m < pairs.len() implies links[m] == link(#[trigger] pairs[m]) by {}
    assert forall|k: int| 0 <= k < from.len() implies names_link(tables, #[trigger] from[k])
        && links.filter(p)[k] == link(from[k]) && p(link(from[k])) by {
        assert(0 <= places[k] < links.len());
        assert(from[k] == pairs[places[k]]);
    }
    assert forall|k: int, l: int| 0 <= k < l < from.len() implies stands_before(
        #[trigger] from[k],
        #[trigger] from[l],
    ) by {
        assert(places[k] < places[l]);
        assert(from[k] == pairs[places[k]] && from[l] == pairs[places[l]]);
    }
    assert forall|at: (int, int)|
        names_link(tables, at) && p(link(at)) implies #[trigger] from.contains(at) by {
        assert(pairs.contains(at));
        let m = choose|m: int| 0 <= m < pairs.len() && pairs[m] == at;
        assert(links[m] == link(at));
        assert(places.contains(m));
        let k = choose|k: int| 0 <= k < places.len() && places[k] == m;
        assert(from[k] == at);
    }
    from
}

/// The address of a service is looked for among its running deployments, those of the service
/// with exactly that name, from the earliest update to the latest; what is read of each is the
/// address that is stored with it.
pub proof fn law_addresses_of_stored_rows(tables: TablesView, service_name: String) -> (from: Seq<
    (int, int),
>)
    ensures
        ({
            let rows = running_rows(tables, service_name@);
            let addresses = (AddressQuery { service_name }).rows(tables);
            &&& from.len() == rows.len()
            &&& from.len() == addresses.len()
            &&& forall|k: int|
                0 <= k < from.len() ==> {
                    let at = #[trigger] from[k];
                    &&& names_link(tables, at)
                    &&& tables.deployments[at.0].state == State::Running
                    &&& tables.services[at.1].name@ == service_name@
                    &&& rows[k].deployment == tables.deployments[at.0]
                    &&& rows[k].service == tables.services[at.1]
                    &&& addresses[k] == tables.deployments[at.0].address
                }
            &&& forall|at: (int, int)|
                names_link(tables, at) && tables.deployments[at.0].state == State::Running
                    && tables.services[at.1].name@ == service_name@ ==> #[trigger] from.contains(at)
            &&& forall|k: int, l: int|
                0 <= k < l < from.len() ==> {
                    let a = tables.deployments[(#[trigger] from[k]).0].last_update;
                    let b = tables.deployments[(#[trigger] from[l]).0].last_update;
                    a.secs < b.secs || (a.secs == b.secs && a.nanos < b.nanos) || (a.secs == b.secs
                        && a.nanos == b.nanos && stands_before(from[k], from[l]))
                }
        }),
{
    lemma_links_from(tables, running_for(service_name@), OldestFirst)
}

} // verus!
