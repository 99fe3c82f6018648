//! What the commands write, told by the rows that are stored before and after, column by column.

use crate::address::{address_text, is_parsed, AddressError};
use crate::command::{Command, OtherSecrets, OtherServices};
use crate::ids::{Timestamp, Ulid, Uuid};
use crate::laws::addresses::law_set_address_is_read_back;
use crate::laws::reading::law_found_service_has_the_name;
use crate::order::predicate;
use crate::persistence::{ids_of, Persistence};
use crate::query::{first_row, running_rows};
use crate::rows::{Deployment, DeploymentState, Log, Secret, Service, State};
use crate::tables::{Tables, TablesView};
use vstd::prelude::*;

verus! {

/// The views of the tables hold the stored rows themselves, all of them, in their order.
pub proof fn law_views_hold_the_stored_rows(tables: Tables, persistence: Persistence)
    ensures
        tables@.services == tables.services@,
        tables@.deployments == tables.deployments@,
        tables@.logs == tables.logs@,
        tables@.secrets == tables.secrets@,
        tables@.resources == tables.resources@,
        persistence@.services == persistence.tables.services@,
        persistence@.deployments == persistence.tables.deployments@,
        persistence@.logs == persistence.tables.logs@,
        persistence@.secrets == persistence.tables.secrets@,
        persistence@.resources == persistence.tables.resources@,
{
}

/// Empty tables hold no row.
pub proof fn law_empty_tables_hold_nothing()
    ensures
        TablesView::empty().services.len() == 0,
        TablesView::empty().deployments.len() == 0,
        TablesView::empty().logs.len() == 0,
        TablesView::empty().secrets.len() == 0,
        TablesView::empty().resources.len() == 0,
{
}

/// Adding a row puts it behind the others, as it is, and changes nothing else.
pub proof fn law_added_rows_stand_last(
    before: TablesView,
    deployment: Deployment,
    service: Service,
    log: Log,
)
    ensures
        ({
            let after = (Command::InsertDeployment { deployment }).applied(before);
            &&& after.deployments == before.deployments.push(deployment)
            &&& after.services == before.services
            &&& after.logs == before.logs
            &&& after.secrets == before.secrets
            &&& after.resources == before.resources
        }),
        ({
            let after = (Command::InsertService { service }).applied(before);
            &&& after.services == before.services.push(service)
            &&& after.deployments == before.deployments
            &&& after.logs == before.logs
            &&& after.secrets == before.secrets
            &&& after.resources == before.resources
        }),
        ({
            let after = (Command::InsertLog { log }).applied(before);
            &&& after.logs == before.logs.push(log)
            &&& after.services == before.services
            &&& after.deployments == before.deployments
            &&& after.secrets == before.secrets
            &&& after.resources == before.resources
        }),
{
}

/// Whether two deployments agree in all columns but the state, the time of the last update, the
/// address and the flag.
pub open spec fn same_origin(a: Deployment, b: Deployment) -> bool {
    &&& a.id == b.id
    &&& a.service_id == b.service_id
    &&& a.git_commit_id == b.git_commit_id
    &&& a.git_commit_msg == b.git_commit_msg
    &&& a.git_branch == b.git_branch
    &&& a.git_dirty == b.git_dirty
}

/// An update of the state sets the state and the time of the deployment with the identifier and
/// leaves all other columns and deployments as they are.
pub proof fn law_state_update_writes_state_and_time(before: TablesView, state: DeploymentState)
    ensures
        ({
            let after = (Command::UpdateDeployment { state }).applied(before);
            &&& after.deployments.len() == before.deployments.len()
            &&& forall|i: int|
                0 <= i < before.deployments.len() ==> {
                    let (a, b) = (#[trigger] after.deployments[i], before.deployments[i]);
                    &&& same_origin(a, b)
                    &&& a.address == b.address
                    &&& a.is_next == b.is_next
                    &&& b.id == state.id ==> a.state == state.state && a.last_update.secs
                        == state.last_update.secs && a.last_update.nanos == state.last_update.nanos
                    &&& b.id != state.id ==> a.state == b.state && a.last_update == b.last_update
                }
            &&& after.services == before.services
            &&& after.logs == before.logs
            &&& after.secrets == before.secrets
            &&& after.resources == before.resources
        }),
{
}

/// Setting an address writes exactly that text to the deployment with the identifier and leaves
/// all other columns and deployments as they are.
pub proof fn law_set_address_writes_the_address(before: TablesView, id: Uuid, address: String)
    ensures
        ({
            let after = (Command::SetAddress { id, address }).applied(before);
            &&& after.deployments.len() == before.deployments.len()
            &&& forall|i: int|
                0 <= i < before.deployments.len() ==> {
                    let (a, b) = (#[trigger] after.deployments[i], before.deployments[i]);
                    &&& same_origin(a, b)
                    &&& a.state == b.state
                    &&& a.last_update == b.last_update
                    &&& a.is_next == b.is_next
                    &&& b.id == id ==> (a.address matches Some(text) && text@ == address@)
                    &&& b.id != id ==> a.address == b.address
                }
            &&& after.services == before.services
            &&& after.logs == before.logs
            &&& after.secrets == before.secrets
            &&& after.resources == before.resources
        }),
{
}

/// Setting the flag writes it to the deployment with the identifier and leaves all other columns
/// and deployments as they are.
pub proof fn law_set_is_next_writes_the_flag(before: TablesView, id: Uuid, is_next: bool)
    ensures
        ({
            let after = (Command::SetIsNext { id, is_next }).applied(before);
            &&& after.deployments.len() == before.deployments.len()
            &&& forall|i: int|
                0 <= i < before.deployments.len() ==> {
                    let (a, b) = (#[trigger] after.deployments[i], before.deployments[i]);
                    &&& same_origin(a, b)
                    &&& a.state == b.state
                    &&& a.last_update == b.last_update
                    &&& a.address == b.address
                    &&& b.id == id ==> a.is_next == is_next
                    &&& b.id != id ==> a.is_next == b.is_next
                }
            &&& after.services == before.services
            &&& after.logs == before.logs
            &&& after.secrets == before.secrets
            &&& after.resources == before.resources
        }),
{
}

/// The clean-up writes the stopped state to the deployments that are queued, being built, built
/// or being loaded, and leaves all other columns, times among them, and deployments as they are.
pub proof fn law_cleanup_writes_the_stopped_state(before: TablesView)
    ensures
        ({
            let after = Command::CleanupInvalidStates.applied(before);
            &&& after.deployments.len() == before.deployments.len()
            &&& forall|i: int|
                0 <= i < before.deployments.len() ==> {
                    let (a, b) = (#[trigger] after.deployments[i], before.deployments[i]);
                    &&& same_origin(a, b)
                    &&& a.last_update == b.last_update
                    &&& a.address == b.address
                    &&& a.is_next == b.is_next
                    &&& a.state == match b.state {
                        State::Queued => State::Stopped,
                        State::Building => State::Stopped,
                        State::Built => State::Stopped,
                        State::Loading => State::Stopped,
                        State::Running => State::Running,
                        State::Completed => State::Completed,
                        State::Stopped => State::Stopped,
                        State::Crashed => State::Crashed,
                    }
                }
            &&& after.services == before.services
            &&& after.logs == before.logs
            &&& after.secrets == before.secrets
            &&& after.resources == before.resources
        }),
{
}

/// Stopping a deployment writes the stopped state and that time to it, as an update of the state
/// does.
pub proof fn law_stopping_writes_the_stopped_state(before: TablesView, id: Uuid, now: Timestamp)
    ensures
        ({
            let after = Command::stopping(id, now).applied(before);
            &&& after.deployments.len() == before.deployments.len()
            &&& forall|i: int|
                0 <= i < before.deployments.len() ==> {
                    let (a, b) = (#[trigger] after.deployments[i], before.deployments[i]);
                    &&& same_origin(a, b)
                    &&& a.address == b.address
                    &&& a.is_next == b.is_next
                    &&& b.id == id ==> a.state == State::Stopped && a.last_update.secs == now.secs
                        && a.last_update.nanos == now.nanos
                    &&& b.id != id ==> a.state == b.state && a.last_update == b.last_update
                }
            &&& after.services == before.services
            &&& after.logs == before.logs
            &&& after.secrets == before.secrets
            &&& after.resources == before.resources
        }),
{
}

/// Removing a service takes the services with the identifier out and leaves all others, in their
/// order.
pub proof fn law_removal_takes_out_one_identifier(before: TablesView, service_id: Ulid)
    ensures
        ({
            let after = (Command::DeleteService { service_id }).applied(before);
            &&& after.services == before.services.filter(|row: Service| row.id != service_id)
            &&& after.deployments == before.deployments
            &&& after.logs == before.logs
            &&& after.secrets == before.secrets
            &&& after.resources == before.resources
        }),
{
    assert(predicate(OtherServices { id: service_id }) =~= |row: Service|
        row.id != service_id);
}

/// Storing a secret takes out what the same service keeps under the same key, leaves all others,
/// in their order, and puts the secret behind them as it is.
pub proof fn law_stored_secret_takes_the_place(before: TablesView, secret: Secret)
    ensures
        ({
            let after = (Command::InsertSecret { secret }).applied(before);
            &&& after.secrets == before.secrets.filter(
                |row: Secret| row.service_id != secret.service_id || row.key@ != secret.key@,
            ).push(secret)
            &&& after.services == before.services
            &&& after.deployments == before.deployments
            &&& after.logs == before.logs
            &&& after.resources == before.resources
        }),
{
    let others = OtherSecrets { service_id: secret.service_id, key: secret.key };
    assert(predicate(others) =~= |row: Secret| row.service_id != secret.service_id || row.key@ != secret.key@);
}

/// A secret is kept for the service, under the key and with the value that were given, to the
/// letter.
pub proof fn law_kept_secret_is_the_given_one(
    secret: Secret,
    service_id: Ulid,
    key: Seq<char>,
    value: Seq<char>,
)
    requires
        secret.is_kept(service_id, key, value),
    ensures
        secret.service_id.value == service_id.value,
        secret.key@ == key,
        secret.value@ == value,
{
}

/// Where a name finds a service, that one comes back and nothing changes; where it finds none, a
/// service with exactly that name is added behind the others.
pub proof fn law_missing_service_is_added(
    before: TablesView,
    name: Seq<char>,
    service: Service,
    after: TablesView,
)
    requires
        before.finds_or_creates(name, service, after),
    ensures
        service.name@ == name,
        (exists|i: int|
            0 <= i < before.services.len() && (#[trigger] before.services[i]).name@ == name) ==> (
        after.services == before.services && exists|i: int|
            0 <= i < before.services.len() && #[trigger] before.services[i] == service && forall|
                j: int,
            |
                0 <= j < i ==> (#[trigger] before.services[j]).name@ != name),
        (forall|i: int|
            0 <= i < before.services.len() ==> (#[trigger] before.services[i]).name@ != name)
            ==> after.services == before.services.push(service),
        after.deployments == before.deployments,
        after.logs == before.logs,
        after.secrets == before.secrets,
        after.resources == before.resources,
{
    law_found_service_has_the_name(before, name);
}

/// The identifiers of deployments are their own, one for one.
pub proof fn law_identifiers_are_those_of_the_rows(rows: Seq<Deployment>)
    ensures
        ids_of(rows).len() == rows.len(),
        forall|i: int| 0 <= i < rows.len() ==> #[trigger] ids_of(rows)[i] == rows[i].id,
{
}

/// The text of a stored address is read to the letter, and where no address is stored the text is
/// empty: addresses that differ are told apart.
pub proof fn law_address_is_read_to_the_letter(a: String, b: String)
    ensures
        address_text(Some(a)) == a@,
        address_text(None).len() == 0,
        a@ != b@ ==> address_text(Some(a)) != address_text(Some(b)),
{
}

/// Once the address of a running deployment is set that the traffic for a service goes to, the
/// text that is read for the service is the one that was set, to the letter.
pub proof fn law_set_address_is_read_to_the_letter(
    before: TablesView,
    id: Uuid,
    address: String,
    name: Seq<char>,
)
    requires
        first_row(running_rows(before, name)) matches Some(row) && row.deployment.id == id,
    ensures
        ({
            let after = (Command::SetAddress { id, address }).applied(before);
            first_row(running_rows(after, name)) matches Some(row) && address_text(
                row.deployment.address,
            ) == address@
        }),
{
    law_set_address_is_read_back(before, id, address, name);
}

/// An address that was parsed comes out as it is, and a text that is none as the error of a
/// conversion from a string to a socket address, with the parser's own message.
pub proof fn law_parsed_address_comes_out<A, E>(
    parsed: Result<A, String>,
    result: Result<Option<A>, AddressError<E>>,
)
    requires
        is_parsed(parsed, result),
    ensures
        parsed matches Ok(address) ==> (result matches Ok(Some(out)) && out == address),
        parsed matches Err(reason) ==> (result matches Err(AddressError::Convert {
            from,
            to,
            message,
        }) && from@ == "String"@ && to@ == "SocketAddr"@ && message@ == reason@),
{
}

} // verus!
