//! The dispatcher: the reconciliation loop that keeps one pipeline running
//! for each entry of the streams table. It diffs the table against the
//! running managers, applies the restart-policy table when a pipeline
//! finishes, and plans what to stop, start and discard; the asynchronous
//! shell carries the plan out.

use vstd::prelude::*;
use crate::pipeline::PipelineEndReason;
use crate::streams::EntryModel;
use crate::streams::RestartPolicy;
use crate::streams::StreamEntryState;
use crate::streams::StreamsTable;
use crate::streams::find_pipeline_index;
use crate::streams::spec_live_hash;

verus! {

/// What reaches the dispatcher: a change of the streams table, or the end
/// of a pipeline with its reason.
pub enum DispatcherEvent {
    TableChange,
    PipelineFinished(u128, PipelineEndReason),
}

/// The restart-policy transition table: the target state an entry moves to
/// when its pipeline finishes for the given reason. A teardown caused by an
/// update always leaves the stream wanted running, so it is rebuilt.
pub open spec fn spec_next_target_state(
    policy: RestartPolicy,
    reason: PipelineEndReason,
) -> StreamEntryState {
    match reason {
        PipelineEndReason::Updated => StreamEntryState::Running,
        PipelineEndReason::Completed => match policy {
            RestartPolicy::Never => StreamEntryState::Completed,
            RestartPolicy::Always => StreamEntryState::Running,
            RestartPolicy::OnError => StreamEntryState::Error,
            RestartPolicy::OnEos => StreamEntryState::Running,
        },
        PipelineEndReason::Error => match policy {
            RestartPolicy::Never => StreamEntryState::Error,
            RestartPolicy::Always => StreamEntryState::Running,
            RestartPolicy::OnError => StreamEntryState::Running,
            RestartPolicy::OnEos => StreamEntryState::Completed,
        },
    }
}

/// Computes the restart-policy transition, exact against
/// `spec_next_target_state`.
pub fn next_target_state(policy: RestartPolicy, reason: PipelineEndReason) -> (r:
    StreamEntryState)
    ensures
        r == spec_next_target_state(policy, reason),
{
    match reason {
        PipelineEndReason::Updated => StreamEntryState::Running,
        PipelineEndReason::Completed => match policy {
            RestartPolicy::Never => StreamEntryState::Completed,
            RestartPolicy::Always => StreamEntryState::Running,
            RestartPolicy::OnError => StreamEntryState::Error,
            RestartPolicy::OnEos => StreamEntryState::Running,
        },
        PipelineEndReason::Error => match policy {
            RestartPolicy::Never => StreamEntryState::Error,
            RestartPolicy::Always => StreamEntryState::Running,
            RestartPolicy::OnError => StreamEntryState::Running,
            RestartPolicy::OnEos => StreamEntryState::Completed,
        },
    }
}

/// Settles a finished pipeline against the table: the bound entry loses its
/// binding and moves to the state the restart-policy table prescribes.
/// Nothing changes when no entry is bound to the pipeline.
pub fn handle_pipeline_finished(
    table: &mut StreamsTable,
    pipeline_id: u128,
    reason: PipelineEndReason,
) -> (found: bool)
    ensures
        match find_pipeline_index(old(table)@, pipeline_id) {
            Some(i) => found && final(table)@ == old(table)@.update(
                i,
                EntryModel {
                    pipeline_id: None,
                    target_state: spec_next_target_state(
                        old(table)@[i].restart_policy,
                        reason,
                    ),
                    ..old(table)@[i]
                },
            ),
            None => !found && final(table)@ == old(table)@,
        },
{
    let policy = match table.find_by_pipeline_id(pipeline_id) {
        Some(entry) => entry.get_restart_policy(),
        None => {
            return false;
        },
    };
    table.settle_pipeline(pipeline_id, next_target_state(policy, reason))
}

/// An entry that reads as drifted: its live hash no longer matches the hash
/// stored at creation, while a pipeline runs for it.
pub open spec fn entry_drifted(e: EntryModel) -> bool {
    e.pipeline_id is Some && spec_live_hash(e) != e.stored_hash
}

/// An entry that needs a pipeline: it is wanted running and has none.
pub open spec fn entry_needs_start(e: EntryModel) -> bool {
    e.pipeline_id is None && e.target_state == StreamEntryState::Running
}

/// What one reconciliation pass has to do, in order: stop the pipelines of
/// drifted entries, start pipelines for entries that need one, and stop the
/// orphaned managers no entry references any more.
pub struct ReconcilePlan {
    /// Pipeline ids of drifted entries, to be stopped and reported as
    /// updated.
    pub to_stop_updated: Vec<u128>,
    /// Entry ids that need a fresh pipeline.
    pub to_start: Vec<u128>,
    /// Running pipeline ids no entry references: their managers are torn
    /// down and their key-value entries purged.
    pub orphans: Vec<u128>,
}

/// Some entry is bound to this pipeline and reads as drifted.
pub open spec fn drifted_pid_in(t: Seq<EntryModel>, pid: u128) -> bool {
    exists|i: int|
        0 <= i < t.len() && (#[trigger] t[i]).pipeline_id == Some(pid) && entry_drifted(t[i])
}

/// Some entry carries this id and needs a pipeline.
pub open spec fn needs_start_id_in(t: Seq<EntryModel>, id: u128) -> bool {
    exists|i: int|
        0 <= i < t.len() && (#[trigger] t[i]).id == id && entry_needs_start(t[i])
}

/// The pipeline ids of drifted entries.
fn collect_drifted(table: &StreamsTable) -> (r: Vec<u128>)
    ensures
        forall|k: int|
            #![trigger r@[k]]
            0 <= k < r@.len() ==> drifted_pid_in(table@, r@[k]),
        forall|i: int|
            0 <= i < table@.len() && entry_drifted(#[trigger] table@[i]) ==> r@.contains(
                table@[i].pipeline_id->Some_0,
            ),
{
    let snapshot = table.get_table();
    let n = snapshot.len();
    let mut out: Vec<u128> = Vec::new();
    let mut i: usize = 0;
    while i < n
        invariant
            i <= n,
            n == snapshot@.len(),
            snapshot@.map_values(|e: crate::streams::StreamsTableEntry| e@) == table@,
            forall|k: int|
                #![trigger out@[k]]
                0 <= k < out@.len() ==> drifted_pid_in(table@, out@[k]),
            forall|w: int|
                0 <= w < i && entry_drifted(#[trigger] table@[w]) ==> out@.contains(
                    table@[w].pipeline_id->Some_0,
                ),
        decreases n - i,
    {
        let stored = snapshot[i].get_stored_hash();
        let live = snapshot[i].hash();
        if live != stored {
            if let Some(pid) = snapshot[i].get_pipeline() {
                let ghost before = out@;
                out.push(pid);
                proof {
                    assert(table@[i as int].pipeline_id == Some(pid));
                    assert(entry_drifted(table@[i as int]));
                    assert(drifted_pid_in(table@, pid));
                    assert forall|k: int|
                        #![trigger out@[k]]
                        0 <= k < out@.len() implies drifted_pid_in(table@, out@[k]) by {
                        if k < before.len() {
                            assert(out@[k] == before[k]);
                        } else {
                            assert(out@[k] == pid);
                        }
                    };
                    assert forall|w: int|
                        0 <= w < i + 1 && entry_drifted(#[trigger] table@[w]) implies out@
                        .contains(table@[w].pipeline_id->Some_0) by {
                        if w < i {
                            let q = choose|q: int|
                                0 <= q < before.len() && before[q] == table@[w].pipeline_id->Some_0;
                            assert(out@[q] == table@[w].pipeline_id->Some_0);
                        } else {
                            assert(out@[before.len() as int] == pid);
                        }
                    };
                }
            }
        }
        i = i + 1;
    }
    out
}

/// The entry ids that need a fresh pipeline.
fn collect_needs_start(table: &StreamsTable) -> (r: Vec<u128>)
    ensures
        forall|k: int|
            #![trigger r@[k]]
            0 <= k < r@.len() ==> needs_start_id_in(table@, r@[k]),
        forall|i: int|
            0 <= i < table@.len() && entry_needs_start(#[trigger] table@[i]) ==> r@.contains(
                table@[i].id,
            ),
{
    let snapshot = table.get_table();
    let n = snapshot.len();
    let mut out: Vec<u128> = Vec::new();
    let mut j: usize = 0;
    while j < n
        invariant
            j <= n,
            n == snapshot@.len(),
            snapshot@.map_values(|e: crate::streams::StreamsTableEntry| e@) == table@,
            forall|k: int|
                #![trigger out@[k]]
                0 <= k < out@.len() ==> needs_start_id_in(table@, out@[k]),
            forall|w: int|
                0 <= w < j && entry_needs_start(#[trigger] table@[w]) ==> out@.contains(
                    table@[w].id,
                ),
        decreases n - j,
    {
        let needs = match snapshot[j].get_pipeline() {
            Some(_) => false,
            None => match snapshot[j].get_target_state() {
                StreamEntryState::Running => true,
                StreamEntryState::Completed => false,
                StreamEntryState::Error => false,
            },
        };
        if needs {
            let ghost before = out@;
            let id = snapshot[j].get_id();
            out.push(id);
            proof {
                assert(table@[j as int].id == id);
                assert(entry_needs_start(table@[j as int]));
                assert(needs_start_id_in(table@, id));
                assert forall|k: int|
                    #![trigger out@[k]]
                    0 <= k < out@.len() implies needs_start_id_in(table@, out@[k]) by {
                    if k < before.len() {
                        assert(out@[k] == before[k]);
                    } else {
                        assert(out@[k] == id);
                    }
                };
                assert forall|w: int|
                    0 <= w < j + 1 && entry_needs_start(#[trigger] table@[w]) implies out@
                    .contains(table@[w].id) by {
                    if w < j {
                        let q = choose|q: int| 0 <= q < before.len() && before[q] == table@[w].id;
                        assert(out@[q] == table@[w].id);
                    } else {
                        assert(out@[before.len() as int] == id);
                    }
                };
            }
        }
        j = j + 1;
    }
    out
}

/// The running pipelines no entry references.
fn collect_orphans(table: &StreamsTable, running: &Vec<u128>) -> (r: Vec<u128>)
    ensures
        forall|k: int|
            #![trigger r@[k]]
            0 <= k < r@.len() ==> running@.contains(r@[k]) && find_pipeline_index(
                table@,
                r@[k],
            ) is None,
        forall|k: int|
            0 <= k < running@.len() && find_pipeline_index(
                table@,
                #[trigger] running@[k],
            ) is None ==> r@.contains(running@[k]),
{
    let mut out: Vec<u128> = Vec::new();
    let rn = running.len();
    let mut m: usize = 0;
    while m < rn
        invariant
            m <= rn,
            rn == running@.len(),
            forall|k: int|
                #![trigger out@[k]]
                0 <= k < out@.len() ==> running@.contains(out@[k]) && find_pipeline_index(
                    table@,
                    out@[k],
                ) is None,
            forall|w: int|
                0 <= w < m && find_pipeline_index(table@, #[trigger] running@[w]) is None
                    ==> out@.contains(running@[w]),
        decreases rn - m,
    {
        let pid = running[m];
        if table.find_by_pipeline_id(pid).is_none() {
            let ghost before = out@;
            out.push(pid);
            proof {
                assert(running@[m as int] == pid);
                assert(running@.contains(pid));
                assert forall|k: int|
                    #![trigger out@[k]]
                    0 <= k < out@.len() implies running@.contains(out@[k])
                        && find_pipeline_index(table@, out@[k]) is None by {
                    if k < before.len() {
                        assert(out@[k] == before[k]);
                    } else {
                        assert(out@[k] == pid);
                    }
                };
                assert forall|w: int|
                    0 <= w < m + 1 && find_pipeline_index(
                        table@,
                        #[trigger] running@[w],
                    ) is None implies out@.contains(running@[w]) by {
                    if w < m {
                        let q = choose|q: int| 0 <= q < before.len() && before[q] == running@[w];
                        assert(out@[q] == running@[w]);
                    } else {
                        assert(out@[before.len() as int] == pid);
                    }
                };
            }
        }
        m = m + 1;
    }
    out
}

/// Derives the reconciliation plan from the table and the set of running
/// pipelines.
pub fn plan_table_change(table: &StreamsTable, running: &Vec<u128>) -> (r: ReconcilePlan)
    ensures
        forall|k: int|
            #![trigger r.to_stop_updated@[k]]
            0 <= k < r.to_stop_updated@.len() ==> drifted_pid_in(
                table@,
                r.to_stop_updated@[k],
            ),
        forall|i: int|
            0 <= i < table@.len() && entry_drifted(#[trigger] table@[i])
                ==> r.to_stop_updated@.contains(table@[i].pipeline_id->Some_0),
        forall|k: int|
            #![trigger r.to_start@[k]]
            0 <= k < r.to_start@.len() ==> needs_start_id_in(table@, r.to_start@[k]),
        forall|i: int|
            0 <= i < table@.len() && entry_needs_start(#[trigger] table@[i])
                ==> r.to_start@.contains(table@[i].id),
        forall|k: int|
            #![trigger r.orphans@[k]]
            0 <= k < r.orphans@.len() ==> running@.contains(r.orphans@[k])
                && find_pipeline_index(table@, r.orphans@[k]) is None,
        forall|k: int|
            0 <= k < running@.len() && find_pipeline_index(
                table@,
                #[trigger] running@[k],
            ) is None ==> r.orphans@.contains(running@[k]),
{
    let to_stop_updated = collect_drifted(table);
    let to_start = collect_needs_start(table);
    let orphans = collect_orphans(table, running);
    ReconcilePlan { to_stop_updated, to_start, orphans }
}

/// When a reconciliation pass has settled — the plan derived from the table
/// starts nothing — every entry whose target state is `Running` is bound to
/// a pipeline. Entries that failed to start are not exceptions: their
/// rollback removed them from the table.
pub proof fn lemma_settled_reconciliation(t: Seq<EntryModel>)
    requires
        forall|i: int| 0 <= i < t.len() ==> !entry_needs_start(#[trigger] t[i]),
    ensures
        forall|i: int|
            0 <= i < t.len() && (#[trigger] t[i]).target_state == StreamEntryState::Running
                ==> t[i].pipeline_id is Some,
{
}

/// A stream with the `Never` policy that reaches the end of its output
/// settles as `Completed`, and a completed entry never needs a new
/// pipeline: no reconciliation pass will ever start one for it again.
pub proof fn lemma_never_policy_completes(e: EntryModel)
    requires
        e.restart_policy == RestartPolicy::Never,
    ensures
        spec_next_target_state(e.restart_policy, PipelineEndReason::Completed)
            == StreamEntryState::Completed,
        !entry_needs_start(
            EntryModel {
                pipeline_id: None,
                target_state: spec_next_target_state(
                    e.restart_policy,
                    PipelineEndReason::Completed,
                ),
                ..e
            },
        ),
{
}

} // verus!
