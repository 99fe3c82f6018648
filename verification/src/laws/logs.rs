//! Laws of the logs.

use crate::command::Command;
use crate::ids::Uuid;
use crate::laws::deployments::{deployment_with_id, law_update_is_read_back};
use crate::laws::tables::{lemma_ordered_contains, lemma_selected, lemma_selected_contains};
use crate::order::{
    in_order, law_ordered_rows_are_in_order, law_ordering_keeps_every_row, predicate, selected,
};
use crate::query::{DeploymentQuery, LogQuery, OldestFirst};
use crate::recorder::{LogType, RecordAction, RecordedLog, Recording};
use crate::rows::{Deployment, Log};
use crate::tables::TablesView;
use vstd::prelude::*;

verus! {

/// The logs of a deployment come earliest first, and they are all logs in the table that are
/// about it.
pub proof fn law_logs_come_earliest_first(tables: TablesView, id: Uuid)
    ensures
        in_order((LogQuery { id }).rows(tables), OldestFirst),
        forall|log: Log|
            #[trigger] (LogQuery { id }).rows(tables).contains(log) <==> tables.logs.contains(log)
                && log.id == id,
{
    let query = LogQuery { id };
    law_ordered_rows_are_in_order(selected(tables.logs, query), OldestFirst);
    assert forall|log: Log| #[trigger] query.rows(tables).contains(log) <==> tables.logs.contains(
        log,
    ) && log.id == id by {
        lemma_selected_contains(tables.logs, query, log);
        lemma_ordered_contains(selected(tables.logs, query), OldestFirst, log);
    }
}

/// A log that was added is read back once more than before, with the other logs of its
/// deployment; the logs of other deployments stay as they are.
pub proof fn law_inserted_log_is_read_back(before: TablesView, log: Log)
    ensures
        ({
            let after = (Command::InsertLog { log }).applied(before);
            &&& (LogQuery { id: log.id }).rows(after).to_multiset() == (LogQuery {
                id: log.id,
            }).rows(before).to_multiset().insert(log)
            &&& forall|id: Uuid|
                id != log.id ==> (#[trigger] LogQuery::of(id)).rows(after) == LogQuery::of(
                    id,
                ).rows(before)
        }),
{
    broadcast use vstd::seq_lib::group_to_multiset_ensures;

    let after = (Command::InsertLog { log }).applied(before);
    let query = LogQuery { id: log.id };
    before.logs.lemma_filter_push(log, predicate(query));
    law_ordering_keeps_every_row(selected(after.logs, query), OldestFirst);
    law_ordering_keeps_every_row(selected(before.logs, query), OldestFirst);
    assert forall|id: Uuid| id != log.id implies (#[trigger] LogQuery::of(id)).rows(after)
        == LogQuery::of(id).rows(before) by {
        before.logs.lemma_filter_push(log, predicate(LogQuery::of(id)));
    }
}

/// Recording an event stores the log as it is and leaves the deployments alone.
pub proof fn law_recorded_event_is_stored(log: RecordedLog, before: TablesView, after: TablesView)
    requires
        log.records(before, after),
        log.log_type == LogType::Event,
    ensures
        (LogQuery { id: log.id }).rows(after).contains(log.as_log()),
        after.deployments == before.deployments,
{
    assert(after.logs[before.logs.len() as int] == log.as_log());
    law_logs_come_earliest_first(after, log.id);
}

/// Recording a change of state stores a log that tells of it, and the deployment is in that
/// state, as of that time, from then on; the other deployments stay as they are.
pub proof fn law_recorded_state_is_taken_over(
    log: RecordedLog,
    before: TablesView,
    after: TablesView,
    id: Uuid,
)
    requires
        log.records(before, after),
        log.log_type == LogType::State,
    ensures
        exists|stored: Log|
            #[trigger] log.has_state_log(stored) && (LogQuery { id: log.id }).rows(
                after,
            ).contains(stored),
        deployment_with_id(after, id) == match deployment_with_id(before, id) {
            Some(row) if id == log.id => Some(
                Deployment { state: log.state, last_update: log.timestamp, ..row },
            ),
            other => other,
        },
{
    let command = Command::UpdateDeployment { state: log.as_deployment_state() };
    let stored = choose|stored: Log|
        #![trigger log.has_state_log(stored)]
        log.has_state_log(stored) && after == command.applied(
            (Command::InsertLog { log: stored }).applied(before),
        );
    let between = (Command::InsertLog { log: stored }).applied(before);
    assert(after.logs[before.logs.len() as int] == stored);
    law_logs_come_earliest_first(after, log.id);
    law_update_is_read_back(between, command, id);
    lemma_selected(before.deployments, DeploymentQuery::WithId { id });
}

/// Recording goes on whatever comes of its actions: after `i` of them the next step of storing
/// the log is taken, the broadcast follows the last step, once, and after the broadcast nothing
/// is left. What is broadcast is the log as it was received.
pub proof fn law_recording_goes_on(log: RecordedLog, states: Seq<Recording>, i: int)
    requires
        0 <= i < states.len(),
        states[0] == (Recording { log, taken: 0 }),
        forall|k: int| 0 <= k < states.len() - 1 ==> states[k + 1] == (
        #[trigger] states[k]).advanced(),
    ensures
        states[i].log == log,
        forall|action: RecordAction| #[trigger]
            states[i].log.is_action(states[i].taken as int, action) ==> {
                &&& action is Execute <==> i < log.step_count()
                &&& action is Broadcast <==> i == log.step_count()
                &&& action is Done <==> i > log.step_count()
                &&& action matches RecordAction::Execute(step) ==> log.is_step(i, step)
            },
{
    lemma_recording_goes_on(log, states, i);
}

proof fn lemma_recording_goes_on(log: RecordedLog, states: Seq<Recording>, i: int)
    requires
        0 <= i < states.len(),
        states[0] == (Recording { log, taken: 0 }),
        forall|k: int| 0 <= k < states.len() - 1 ==> states[k + 1] == (
        #[trigger] states[k]).advanced(),
    ensures
        states[i].log == log,
        states[i].taken == if i <= log.step_count() {
            i
        } else {
            log.step_count() + 1
        },
    decreases i,
{
    if i > 0 {
        lemma_recording_goes_on(log, states, i - 1);
        assert(states[(i - 1) + 1] == states[i - 1].advanced());
    }
}

} // verus!
