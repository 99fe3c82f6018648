//! What recording a log leaves behind, column by column, and which steps it takes.

use crate::command::Command;
use crate::json::json_string_of;
use crate::laws::logs::law_logs_come_earliest_first;
use crate::laws::writing::same_origin;
use crate::query::LogQuery;
use crate::recorder::{LogType, RecordAction, RecordStep, RecordedLog, Recording};
use crate::rows::Log;
use crate::tables::TablesView;
use vstd::prelude::*;

verus! {

/// Recording an event adds one log, whose columns are those of the event, and changes nothing
/// else.
pub proof fn law_recorded_event_keeps_its_columns(
    log: RecordedLog,
    before: TablesView,
    after: TablesView,
)
    requires
        log.records(before, after),
        log.log_type == LogType::Event,
    ensures
        exists|stored: Log|
            {
                &&& stored.id == log.id
                &&& stored.timestamp.secs == log.timestamp.secs
                &&& stored.timestamp.nanos == log.timestamp.nanos
                &&& stored.state == log.state
                &&& stored.level == log.level
                &&& stored.file == log.file
                &&& stored.line == log.line
                &&& stored.target@ == log.target@
                &&& stored.fields == log.fields
                &&& after.logs == #[trigger] before.logs.push(stored)
                &&& (LogQuery { id: log.id }).rows(after).contains(stored)
            },
        after.deployments == before.deployments,
        after.services == before.services,
        after.secrets == before.secrets,
        after.resources == before.resources,
{
    let stored = log.as_log();
    assert(after.logs == before.logs.push(stored));
    assert(after.logs[before.logs.len() as int] == stored);
    law_logs_come_earliest_first(after, log.id);
}

/// Two events that differ in a column leave logs that differ in it.
pub proof fn law_recorded_events_are_told_apart(a: RecordedLog, b: RecordedLog)
    ensures
        a.id != b.id ==> a.as_log().id != b.as_log().id,
        a.timestamp != b.timestamp ==> a.as_log().timestamp != b.as_log().timestamp,
        a.state != b.state ==> a.as_log().state != b.as_log().state,
        a.level != b.level ==> a.as_log().level != b.as_log().level,
        a.file != b.file ==> a.as_log().file != b.as_log().file,
        a.line != b.line ==> a.as_log().line != b.as_log().line,
        a.target@ != b.target@ ==> a.as_log().target@ != b.as_log().target@,
        a.fields != b.fields ==> a.as_log().fields != b.as_log().fields,
{
}

/// Recording a change of state adds one log, whose columns are those of the change but for an
/// empty target and the message that stands for a new state, and writes the state and the time
/// to the deployment with the identifier, and nothing else.
pub proof fn law_recorded_state_keeps_its_columns(
    log: RecordedLog,
    before: TablesView,
    after: TablesView,
)
    requires
        log.records(before, after),
        log.log_type == LogType::State,
    ensures
        exists|stored: Log|
            {
                &&& stored.id == log.id
                &&& stored.timestamp.secs == log.timestamp.secs
                &&& stored.timestamp.nanos == log.timestamp.nanos
                &&& stored.state == log.state
                &&& stored.level == log.level
                &&& stored.file == log.file
                &&& stored.line == log.line
                &&& stored.target@.len() == 0
                &&& stored.fields == json_string_of("NEW STATE"@)
                &&& after.logs == #[trigger] before.logs.push(stored)
                &&& (LogQuery { id: log.id }).rows(after).contains(stored)
            },
        after.deployments.len() == before.deployments.len(),
        forall|i: int|
            0 <= i < before.deployments.len() ==> {
                let (a, b) = (#[trigger] after.deployments[i], before.deployments[i]);
                &&& same_origin(a, b)
                &&& a.address == b.address
                &&& a.is_next == b.is_next
                &&& b.id == log.id ==> a.state == log.state && a.last_update.secs
                    == log.timestamp.secs && a.last_update.nanos == log.timestamp.nanos
                &&& b.id != log.id ==> a.state == b.state && a.last_update == b.last_update
            },
        after.services == before.services,
        after.secrets == before.secrets,
        after.resources == before.resources,
{
    let command = Command::UpdateDeployment { state: log.as_deployment_state() };
    let stored = choose|stored: Log|
        #![trigger log.has_state_log(stored)]
        log.has_state_log(stored) && after == command.applied(
            (Command::InsertLog { log: stored }).applied(before),
        );
    assert(after.logs == before.logs.push(stored));
    assert(after.logs[before.logs.len() as int] == stored);
    law_logs_come_earliest_first(after, log.id);
}

/// An event is stored in one step, and a change of state in two: the log first and the deployment
/// after it. Each step tells what failed where it fails.
pub proof fn law_steps_of_recording(log: RecordedLog, taken: int, step: RecordStep)
    requires
        log.is_step(taken, step),
    ensures
        log.log_type == LogType::Event ==> {
            &&& log.step_count() == 1
            &&& taken == 0
            &&& step.failure@ == "failed to insert event log"@
            &&& step.command matches Command::InsertLog { log: stored }
            &&& stored.id == log.id
            &&& stored.timestamp == log.timestamp
            &&& stored.state == log.state
            &&& stored.level == log.level
            &&& stored.file == log.file
            &&& stored.line == log.line
            &&& stored.target@ == log.target@
            &&& stored.fields == log.fields
        },
        log.log_type == LogType::State ==> log.step_count() == 2 && (taken == 0 || taken == 1),
        log.log_type == LogType::State && taken == 0 ==> {
            &&& step.failure@ == "failed to insert state log"@
            &&& step.command matches Command::InsertLog { log: stored }
            &&& stored.id == log.id
            &&& stored.timestamp == log.timestamp
            &&& stored.state == log.state
            &&& stored.level == log.level
            &&& stored.file == log.file
            &&& stored.line == log.line
            &&& stored.target@.len() == 0
            &&& stored.fields == json_string_of("NEW STATE"@)
        },
        log.log_type == LogType::State && taken == 1 ==> {
            &&& step.failure@ == "failed to update deployment state"@
            &&& step.command matches Command::UpdateDeployment { state }
            &&& state.id == log.id
            &&& state.state == log.state
            &&& state.last_update == log.timestamp
        },
{
}

/// An event takes one step and a broadcast, a change of state two steps and a broadcast, and then
/// nothing is left to do.
pub proof fn law_actions_of_recording(log: RecordedLog, taken: int, action: RecordAction)
    requires
        log.is_action(taken, action),
        taken >= 0,
    ensures
        log.log_type == LogType::Event ==> {
            &&& action is Execute <==> taken == 0
            &&& action is Broadcast <==> taken == 1
            &&& action is Done <==> taken >= 2
        },
        log.log_type == LogType::State ==> {
            &&& action is Execute <==> taken == 0 || taken == 1
            &&& action is Broadcast <==> taken == 2
            &&& action is Done <==> taken >= 3
        },
        action matches RecordAction::Execute(step) ==> log.is_step(taken, step),
{
}

/// Recording goes on by one action at a time, with the same log, and tells what failed.
pub proof fn law_recording_advances(recording: Recording)
    ensures
        recording.advanced().log == recording.log,
        recording.log.log_type == LogType::Event ==> {
            &&& recording.taken < 2 ==> recording.advanced().taken == recording.taken + 1
            &&& recording.taken >= 2 ==> recording.advanced().taken == recording.taken
            &&& recording.taken == 0 ==> recording.failure() == "failed to insert event log"@
            &&& recording.taken == 1 ==> recording.failure() == "failed to broadcast log"@
        },
        recording.log.log_type == LogType::State ==> {
            &&& recording.taken < 3 ==> recording.advanced().taken == recording.taken + 1
            &&& recording.taken >= 3 ==> recording.advanced().taken == recording.taken
            &&& recording.taken == 0 ==> recording.failure() == "failed to insert state log"@
            &&& recording.taken == 1 ==> recording.failure() == "failed to update deployment state"@
            &&& recording.taken == 2 ==> recording.failure() == "failed to broadcast log"@
        },
{
}

} // verus!
