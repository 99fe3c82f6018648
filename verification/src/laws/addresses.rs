//! Laws of the addresses of services.

use crate::command::Command;
use crate::ids::Uuid;
use crate::laws::deployments::{is_linked, lemma_joined, lemma_joined_updated, updated_link};
use crate::laws::tables::{lemma_filter_map_commute, lemma_ordered_contains};
use crate::order::{in_order, law_ordered_rows_are_in_order, lemma_ordered_map};
use crate::query::{first_row, running_for, running_rows, OldestFirst};
use crate::rows::{Deployment, State};
use crate::tables::{joined, Joined, TablesView};
use vstd::prelude::*;

verus! {

/// The address of a service is looked for among the running deployments of the service, earliest
/// update first.
pub proof fn law_addresses_are_of_running_deployments(tables: TablesView, name: Seq<char>)
    ensures
        in_order(running_rows(tables, name), OldestFirst),
        forall|row: Joined|
            #[trigger] running_rows(tables, name).contains(row) <==> is_linked(tables, row)
                && row.service.name@ == name && row.deployment.state == State::Running,
{
    let links = joined(tables.deployments, tables.services);
    let found = links.filter(running_for(name));
    law_ordered_rows_are_in_order(found, OldestFirst);
    assert forall|row: Joined|
        #[trigger] running_rows(tables, name).contains(row) <==> is_linked(tables, row)
            && row.service.name@ == name && row.deployment.state == State::Running by {
        lemma_joined(tables.deployments, tables.services, row);
        lemma_ordered_contains(found, OldestFirst, row);
        if found.contains(row) {
            let i = choose|i: int| 0 <= i < found.len() && found[i] == row;
            links.lemma_filter_pred(running_for(name), i);
            links.lemma_filter_contains_rev(running_for(name), row);
        }
        if links.contains(row) && running_for(name)(row) {
            let i = choose|i: int| 0 <= i < links.len() && links[i] == row;
            links.lemma_filter_contains(running_for(name), i);
        }
    }
}

/// Once the address of the deployment is set that the traffic for a service goes to, the traffic
/// goes to that address; for any other service the address stays.
pub proof fn law_set_address_is_read_back(
    before: TablesView,
    id: Uuid,
    address: String,
    name: Seq<char>,
)
    ensures
        ({
            let after = (Command::SetAddress { id, address }).applied(before);
            match first_row(running_rows(before, name)) {
                Some(row) => first_row(running_rows(after, name)) == Some(
                    Joined {
                        deployment: if row.deployment.id == id {
                            Deployment { address: Some(address), ..row.deployment }
                        } else {
                            row.deployment
                        },
                        service: row.service,
                    },
                ),
                None => first_row(running_rows(after, name)) is None,
            }
        }),
{
    let command = Command::SetAddress { id, address };
    let after = command.applied(before);
    let links = joined(before.deployments, before.services);
    let change = updated_link(command);
    lemma_joined_updated(before.deployments, before.services, command);
    lemma_filter_map_commute(links, running_for(name), change);
    lemma_ordered_map(links.filter(running_for(name)), OldestFirst, change);
}

} // verus!
