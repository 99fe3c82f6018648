//! How commands and queries are worded: the text that is sent to the database is the same for all
//! values, and each value is bound to the placeholder of its column.

use crate::command::Command;
use crate::ids::{ulid_text, Ulid, Uuid};
use crate::query::{
    AddressQuery, BuildingQuery, DeploymentQuery, LogQuery, ResourceQuery, RunnableQuery,
    SecretQuery, ServiceQuery,
};
use crate::rows::{Deployment, DeploymentState, Level, Log, Secret, Service, State};
use crate::sql::ParamView;
use vstd::prelude::*;

verus! {

/// A deployment is added with its columns in the order of the table.
pub proof fn law_wording_of_inserted_deployments(deployment: Deployment)
    ensures
        ({
            let statement = (Command::InsertDeployment { deployment }).statement();
            let values = statement.values;
            &&& statement.sql
                == "INSERT INTO deployments VALUES (?, ?, ?, ?, ?, ?, ?, ?, ?, ?)"@
            &&& values.len() == 10
            &&& values[0] == ParamView::Uuid(deployment.id)
            &&& values[1] == ParamView::Text(ulid_text(deployment.service_id.value))
            &&& values[2] == match deployment.state {
                State::Queued => ParamView::Text("Queued"@),
                State::Building => ParamView::Text("Building"@),
                State::Built => ParamView::Text("Built"@),
                State::Loading => ParamView::Text("Loading"@),
                State::Running => ParamView::Text("Running"@),
                State::Completed => ParamView::Text("Completed"@),
                State::Stopped => ParamView::Text("Stopped"@),
                State::Crashed => ParamView::Text("Crashed"@),
            }
            &&& values[3] == ParamView::Time(deployment.last_update)
            &&& values[4] == match deployment.address {
                Some(value) => ParamView::Text(value@),
                None => ParamView::Null,
            }
            &&& values[5] == ParamView::Flag(deployment.is_next)
            &&& values[6] == match deployment.git_commit_id {
                Some(value) => ParamView::Text(value@),
                None => ParamView::Null,
            }
            &&& values[7] == match deployment.git_commit_msg {
                Some(value) => ParamView::Text(value@),
                None => ParamView::Null,
            }
            &&& values[8] == match deployment.git_branch {
                Some(value) => ParamView::Text(value@),
                None => ParamView::Null,
            }
            &&& values[9] == match deployment.git_dirty {
                Some(value) => ParamView::Flag(value),
                None => ParamView::Null,
            }
        }),
{
}

/// Updates name the new values first and the deployment last.
pub proof fn law_wording_of_updates(
    state: DeploymentState,
    id: Uuid,
    address: String,
    is_next: bool,
)
    ensures
        ({
            let statement = (Command::UpdateDeployment { state }).statement();
            let values = statement.values;
            &&& statement.sql
                == "UPDATE deployments SET state = ?, last_update = ? WHERE id = ?"@
            &&& values.len() == 3
            &&& values[0] == match state.state {
                State::Queued => ParamView::Text("Queued"@),
                State::Building => ParamView::Text("Building"@),
                State::Built => ParamView::Text("Built"@),
                State::Loading => ParamView::Text("Loading"@),
                State::Running => ParamView::Text("Running"@),
                State::Completed => ParamView::Text("Completed"@),
                State::Stopped => ParamView::Text("Stopped"@),
                State::Crashed => ParamView::Text("Crashed"@),
            }
            &&& values[1] == ParamView::Time(state.last_update)
            &&& values[2] == ParamView::Uuid(state.id)
        }),
        ({
            let statement = (Command::SetAddress { id, address }).statement();
            let values = statement.values;
            &&& statement.sql
                == "UPDATE deployments SET address = ? WHERE id = ?"@
            &&& values.len() == 2
            &&& values[0] == ParamView::Text(address@)
            &&& values[1] == ParamView::Uuid(id)
        }),
        ({
            let statement = (Command::SetIsNext { id, is_next }).statement();
            let values = statement.values;
            &&& statement.sql
                == "UPDATE deployments SET is_next = ? WHERE id = ?"@
            &&& values.len() == 2
            &&& values[0] == ParamView::Flag(is_next)
            &&& values[1] == ParamView::Uuid(id)
        }),
        ({
            let statement = Command::CleanupInvalidStates.statement();
            let values = statement.values;
            &&& statement.sql
                == "UPDATE deployments SET state = ? WHERE state IN(?, ?, ?, ?)"@
            &&& values.len() == 5
            &&& values[0] == ParamView::Text("Stopped"@)
            &&& values[1] == ParamView::Text("Queued"@)
            &&& values[2] == ParamView::Text("Built"@)
            &&& values[3] == ParamView::Text("Building"@)
            &&& values[4] == ParamView::Text("Loading"@)
        }),
{
}

/// Services, logs and secrets are written with each value under its column.
pub proof fn law_wording_of_other_rows(service: Service, service_id: Ulid, log: Log, secret: Secret)
    ensures
        ({
            let statement = (Command::InsertService { service }).statement();
            let values = statement.values;
            &&& statement.sql
                == "INSERT INTO services (id, name) VALUES (?, ?)"@
            &&& values.len() == 2
            &&& values[0] == ParamView::Text(ulid_text(service.id.value))
            &&& values[1] == ParamView::Text(service.name@)
        }),
        ({
            let statement = (Command::DeleteService { service_id }).statement();
            let values = statement.values;
            &&& statement.sql
                == "DELETE FROM services WHERE id = ?"@
            &&& values.len() == 1
            &&& values[0] == ParamView::Text(ulid_text(service_id.value))
        }),
        ({
            let statement = (Command::InsertLog { log }).statement();
            let values = statement.values;
            &&& statement.sql
                == "INSERT INTO logs (id, timestamp, state, level, file, line, target, fields) VALUES (?, ?, ?, ?, ?, ?, ?, ?)"@
            &&& values.len() == 8
            &&& values[0] == ParamView::Uuid(log.id)
            &&& values[1] == ParamView::Time(log.timestamp)
            &&& values[2] == match log.state {
                State::Queued => ParamView::Text("Queued"@),
                State::Building => ParamView::Text("Building"@),
                State::Built => ParamView::Text("Built"@),
                State::Loading => ParamView::Text("Loading"@),
                State::Running => ParamView::Text("Running"@),
                State::Completed => ParamView::Text("Completed"@),
                State::Stopped => ParamView::Text("Stopped"@),
                State::Crashed => ParamView::Text("Crashed"@),
            }
            &&& values[3] == match log.level {
                Level::Trace => ParamView::Text("Trace"@),
                Level::Debug => ParamView::Text("Debug"@),
                Level::Info => ParamView::Text("Info"@),
                Level::Warn => ParamView::Text("Warn"@),
                Level::Error => ParamView::Text("Error"@),
            }
            &&& values[4] == match log.file {
                Some(value) => ParamView::Text(value@),
                None => ParamView::Null,
            }
            &&& values[5] == match log.line {
                Some(value) => ParamView::Number(value),
                None => ParamView::Null,
            }
            &&& values[6] == ParamView::Text(log.target@)
            &&& values[7] == ParamView::Json(log.fields)
        }),
        ({
            let statement = (Command::InsertSecret { secret }).statement();
            let values = statement.values;
            &&& statement.sql
                == "INSERT OR REPLACE INTO secrets (service_id, key, value, last_update) VALUES (?, ?, ?, ?)"@
            &&& values.len() == 4
            &&& values[0] == ParamView::Text(ulid_text(secret.service_id.value))
            &&& values[1] == ParamView::Text(secret.key@)
            &&& values[2] == ParamView::Text(secret.value@)
            &&& values[3] == ParamView::Time(secret.last_update)
        }),
{
}

/// Deployments are asked for by identifier, by service and state, or by service in pages: a
/// page names its limit, and its offset where there is one.
pub proof fn law_wording_of_deployment_queries(id: Uuid, service_id: Ulid, offset: u32, limit: u32)
    ensures
        ({
            let statement = (DeploymentQuery::WithId { id }).statement();
            let values = statement.values;
            &&& statement.sql
                == "SELECT * FROM deployments WHERE id = ?"@
            &&& values.len() == 1
            &&& values[0] == ParamView::Uuid(id)
        }),
        ({
            let statement = (DeploymentQuery::Active { service_id }).statement();
            let values = statement.values;
            &&& statement.sql
                == "SELECT * FROM deployments WHERE service_id = ? AND state = ?"@
            &&& values.len() == 2
            &&& values[0] == ParamView::Text(ulid_text(service_id.value))
            &&& values[1] == ParamView::Text("Running"@)
        }),
        ({
            let statement = (DeploymentQuery::Page { service_id, offset, limit }).statement();
            let values = statement.values;
            let all = "SELECT * FROM deployments WHERE service_id = "@ + "?"@
                + " ORDER BY last_update DESC LIMIT "@ + "?"@;
            &&& values[0] == ParamView::Text(ulid_text(service_id.value))
            &&& values[1] == ParamView::Number(limit)
            &&& offset == 0 ==> statement.sql == all && values.len() == 2
            &&& offset > 0 ==> statement.sql == all + " OFFSET "@ + "?"@ && values.len() == 3
                && values[2] == ParamView::Number(offset)
        }),
{
}

/// Deployments are asked for together with their services by state, and by identifier where one
/// is given.
pub proof fn law_wording_of_joined_queries(id: Uuid, service_name: String)
    ensures
        ({
            let statement = RunnableQuery::All.statement();
            let values = statement.values;
            &&& statement.sql
                == "SELECT d.id, service_id, s.name AS service_name, d.is_next FROM deployments AS d JOIN services AS s ON s.id = d.service_id WHERE state = ? ORDER BY last_update DESC"@
            &&& values.len() == 1
            &&& values[0] == ParamView::Text("Running"@)
        }),
        ({
            let statement = (RunnableQuery::WithId { id }).statement();
            let values = statement.values;
            &&& statement.sql
                == "SELECT d.id, service_id, s.name AS service_name, d.is_next FROM deployments AS d JOIN services AS s ON s.id = d.service_id WHERE state IN (?, ?, ?) AND d.id = ?"@
            &&& values.len() == 4
            &&& values[0] == ParamView::Text("Running"@)
            &&& values[1] == ParamView::Text("Stopped"@)
            &&& values[2] == ParamView::Text("Completed"@)
            &&& values[3] == ParamView::Uuid(id)
        }),
        ({
            let statement = BuildingQuery::All.statement();
            let values = statement.values;
            &&& statement.sql
                == "SELECT d.id, service_id, s.name AS service_name, d.is_next FROM deployments AS d JOIN services AS s ON s.id = d.service_id WHERE state = ? ORDER BY last_update DESC"@
            &&& values.len() == 1
            &&& values[0] == ParamView::Text("Building"@)
        }),
        ({
            let statement = (BuildingQuery::WithId { id }).statement();
            let values = statement.values;
            &&& statement.sql
                == "SELECT d.id, service_id, s.name AS service_name, d.is_next FROM deployments AS d JOIN services AS s ON s.id = d.service_id WHERE state = ? AND d.id = ?"@
            &&& values.len() == 2
            &&& values[0] == ParamView::Text("Building"@)
            &&& values[1] == ParamView::Uuid(id)
        }),
        ({
            let statement = (AddressQuery { service_name }).statement();
            let values = statement.values;
            &&& statement.sql
                == "SELECT d.address FROM deployments AS d JOIN services AS s ON d.service_id = s.id WHERE s.name = ? AND d.state = ? ORDER BY d.last_update"@
            &&& values.len() == 2
            &&& values[0] == ParamView::Text(service_name@)
            &&& values[1] == ParamView::Text("Running"@)
        }),
{
}

/// Services, logs, secrets and resources are asked for by name or identifier.
pub proof fn law_wording_of_other_queries(name: String, id: Uuid, service_id: Ulid)
    ensures
        ({
            let statement = (ServiceQuery::Named { name }).statement();
            let values = statement.values;
            &&& statement.sql
                == "SELECT * FROM services WHERE name = ?"@
            &&& values.len() == 1
            &&& values[0] == ParamView::Text(name@)
        }),
        ({
            let statement = ServiceQuery::All.statement();
            let values = statement.values;
            &&& statement.sql
                == "SELECT * FROM services"@
            &&& values.len() == 0
        }),
        ({
            let statement = (LogQuery { id }).statement();
            let values = statement.values;
            &&& statement.sql
                == "SELECT * FROM logs WHERE id = ? ORDER BY timestamp"@
            &&& values.len() == 1
            &&& values[0] == ParamView::Uuid(id)
        }),
        ({
            let statement = (SecretQuery { service_id }).statement();
            let values = statement.values;
            &&& statement.sql
                == "SELECT * FROM secrets WHERE service_id = ? ORDER BY key"@
            &&& values.len() == 1
            &&& values[0] == ParamView::Text(ulid_text(service_id.value))
        }),
        ({
            let statement = (ResourceQuery { service_id }).statement();
            let values = statement.values;
            &&& statement.sql
                == "SELECT * FROM resources WHERE service_id = ?"@
            &&& values.len() == 1
            &&& values[0] == ParamView::Text(ulid_text(service_id.value))
        }),
{
}

} // verus!
