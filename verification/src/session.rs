//! What loading the panel and keeping it up to date leads to.

use vstd::prelude::*;

use crate::agent::{AgentRun, AgentStatus};
use crate::error::Error;
use crate::focus::FocusEvent;
use crate::observation::{
    agent_ids_pending, agents_synced, foreign_agent, process_ids_pending, processes_synced,
};
use crate::panel::{
    agent_slot, agents_ordered, has_agent, has_process, lemma_agent_found, lemma_agent_slot,
    lemma_process_found, lemma_process_slot, merged_agents, merged_processes, process_slot,
    processes_ordered, PanelData, TrackedId,
};
use crate::process::ProcessRun;
use crate::query::{AgentQuery, AgentStatusRow, Fetch, ProcessQuery, ProcessStateRow};
use crate::refresh::{
    agents_through, discovered_agents_are_held, discovered_processes_are_held,
    lemma_merged_agents_hold, lemma_merged_agents_ordered, lemma_merged_processes_hold,
    lemma_merged_processes_ordered, loaded_agents_are_held, loaded_processes_are_held, or_zero,
    processes_through, LoadEvent, LoadStep, Marks, SyncEvent, SyncStep, TargetEvent, TargetStep,
    DISCOVERY_BATCH, HISTORY_BATCH,
};
use crate::storage::Storage;
use crate::synchronization::{
    agent_current, agent_known, answered_agents_are_current, answered_processes_are_current,
    lemma_agent_ids_pending, lemma_process_ids_pending, process_current, process_known,
};
use crate::tables::{
    answers_agent_states, answers_agents, answers_process_states, answers_processes, is_latest,
    Tables,
};

verus! {

/// Whether tables are those of successive times.
pub open spec fn timeline(ts: Seq<Tables>) -> bool {
    &&& forall|i: int| 0 <= i < ts.len() ==> (#[trigger] ts[i]).wf()
    &&& forall|i: int, j: int|
        0 <= i < j < ts.len() ==> (#[trigger] ts[j]).continues(#[trigger] ts[i])
}

/// Whether what the panel knows of its items is what is stored of them, or was
/// earlier in their lives.
pub open spec fn faithful(t: Tables, panel: PanelData) -> bool {
    &&& forall|k: int|
        0 <= k < panel.agents@.len() ==> agent_known(t, #[trigger] panel.agents@[k])
    &&& forall|k: int|
        0 <= k < panel.processes@.len() ==> process_known(t, #[trigger] panel.processes@[k])
}

/// Whether the panel has lost nothing out of sight: each stored item is one that it
/// holds, one that is still new to it, a killed agent or an acknowledged command.
pub open spec fn complete(t: Tables, panel: PanelData) -> bool {
    &&& panel.agent_discovered_through <= t.last_agent
    &&& panel.discovered_through <= t.last_process
    &&& forall|id: i64| #[trigger]
        t.agents.contains_key(id) ==> has_agent(panel.agents@, id)
            || panel.agent_discovered_through < id || t.agents[id].state().0
            == AgentStatus::Killed
    &&& forall|id: i64| #[trigger]
        t.processes.contains_key(id) ==> has_process(panel.processes@, id)
            || panel.discovered_through < id || t.processes[id].state() is Acknowledged
}

/// What the panel knows stays faithful and complete as time goes on.
pub proof fn panels_stay_faithful(earlier: Tables, later: Tables, panel: PanelData)
    requires
        earlier.wf(),
        later.wf(),
        later.continues(earlier),
    ensures
        faithful(earlier, panel) ==> faithful(later, panel),
        complete(earlier, panel) ==> complete(later, panel),
{
    if faithful(earlier, panel) {
        assert forall|k: int| 0 <= k < panel.agents@.len() implies agent_known(
            later,
            #[trigger] panel.agents@[k],
        ) by {
            assert(agent_known(earlier, panel.agents@[k]));
        }
        assert forall|k: int| 0 <= k < panel.processes@.len() implies process_known(
            later,
            #[trigger] panel.processes@[k],
        ) by {
            assert(process_known(earlier, panel.processes@[k]));
        }
    }
    if complete(earlier, panel) {
        assert forall|id: i64| #[trigger] later.agents.contains_key(id) implies has_agent(
            panel.agents@,
            id,
        ) || panel.agent_discovered_through < id || later.agents[id].state().0
            == AgentStatus::Killed by {
            if id <= earlier.last_agent {
                assert(earlier.agents.contains_key(id));
            }
        }
        assert forall|id: i64| #[trigger] later.processes.contains_key(id) implies has_process(
            panel.processes@,
            id,
        ) || panel.discovered_through < id || later.processes[id].state() is Acknowledged by {
            if id <= earlier.last_process {
                assert(earlier.processes.contains_key(id));
            }
        }
    }
}

/// Whether agents are those that the tables give for a query, as they are stored.
pub open spec fn agents_found(t: Tables, query: AgentQuery, found: Seq<AgentRun>) -> bool {
    &&& answers_agents(t, query, found.map_values(|run: AgentRun| run.id))
    &&& forall|i: int| 0 <= i < found.len() ==> agent_current(t, #[trigger] found[i])
}

/// Whether commands are those that the tables give for a query, as they are stored.
pub open spec fn processes_found(t: Tables, query: ProcessQuery, found: Seq<ProcessRun>) -> bool {
    &&& answers_processes(t, query, found.map_values(|run: ProcessRun| run.id))
    &&& forall|i: int| 0 <= i < found.len() ==> process_current(t, #[trigger] found[i])
}

/// Whether an event is one that follows on a step of the synchronization, with what
/// the tables hold at that time where it brings an answer.
pub open spec fn sync_answered(t: Tables, step: SyncStep, event: SyncEvent) -> bool {
    match (step, event) {
        (SyncStep::LatestAgent, SyncEvent::LatestAgent(latest)) => latest matches Ok(id)
            ==> is_latest(t.agents.dom(), id),
        (
            SyncStep::Agents { through, query },
            SyncEvent::Agents { through: range, found },
        ) => range == through && (found matches Ok(found) ==> agents_found(t, query, found@)),
        (SyncStep::LatestProcess, SyncEvent::LatestProcess(latest)) => latest matches Ok(id)
            ==> is_latest(t.processes.dom(), id),
        (
            SyncStep::Processes { through, process_query },
            SyncEvent::Processes { through: range, found_processes },
        ) => range == through && (found_processes matches Ok(found) ==> processes_found(
            t,
            process_query,
            found@,
        )),
        (SyncStep::AgentStates(ids), SyncEvent::AgentStates(fetch)) => answers_agent_states(
            t,
            ids@,
            fetch,
        ),
        (SyncStep::ProcessStates(ids), SyncEvent::ProcessStates(fetch)) => answers_process_states(
            t,
            ids@,
            fetch,
        ),
        _ => false,
    }
}

/// Whether panels, events and steps are those of a synchronization that begins with
/// the first panel, each event at the time of its tables.
pub open spec fn sync_run(
    ts: Seq<Tables>,
    panels: Seq<PanelData>,
    events: Seq<SyncEvent>,
    steps: Seq<SyncStep>,
) -> bool {
    &&& timeline(ts)
    &&& steps.len() > 0 && ts.len() == steps.len() && events.len() == steps.len()
    &&& panels.len() == steps.len() + 1
    &&& panels[0].wf()
    &&& events[0] is Started
    &&& forall|i: int|
        0 <= i < steps.len() ==> panels[i].sync_follows(
            #[trigger] events[i],
            panels[i + 1],
            steps[i],
        )
    &&& forall|i: int|
        0 < i < steps.len() ==> sync_answered(ts[i], steps[i - 1], #[trigger] events[i])
}

/// Whether an agent was stored when a synchronization asked its first question, and
/// still is at the end.
pub open spec fn agent_lasts(ts: Seq<Tables>, id: i64) -> bool {
    ts[1].agents.contains_key(id) && ts.last().agents.contains_key(id)
}

/// Whether an agent is known as it was stored at some time of a synchronization.
pub open spec fn agent_seen(ts: Seq<Tables>, run: AgentRun) -> bool {
    exists|i: int| 0 < i < ts.len() && agent_current(#[trigger] ts[i], run)
}

/// What lasts was stored all the time.
proof fn lemma_agent_lasts(ts: Seq<Tables>, id: i64, k: int)
    requires
        timeline(ts),
        agent_lasts(ts, id),
        0 < k < ts.len(),
    ensures
        ts[k].agents.contains_key(id),
{
    assert(ts[1].sound_agent(id));
    if 1 < k {
        assert(ts[k].continues(ts[1]));
    }
    if k < ts.len() - 1 {
        assert(ts[ts.len() - 1].continues(ts[k]));
    }
}

/// Merging known agents gives known agents.
proof fn lemma_merged_agents_known(t: Tables, runs: Seq<AgentRun>, found: Seq<AgentRun>)
    requires
        agents_ordered(runs),
        forall|k: int| 0 <= k < runs.len() ==> agent_known(t, #[trigger] runs[k]),
        forall|i: int| 0 <= i < found.len() ==> agent_known(t, #[trigger] found[i]),
    ensures
        agents_ordered(merged_agents(runs, found).0),
        forall|k: int|
            0 <= k < merged_agents(runs, found).0.len() ==> agent_known(
                t,
                #[trigger] merged_agents(runs, found).0[k],
            ),
    decreases found.len(),
{
    lemma_merged_agents_ordered(runs, found);
    if found.len() > 0 {
        let shorter = found.drop_last();
        assert forall|i: int| 0 <= i < shorter.len() implies agent_known(
            t,
            #[trigger] shorter[i],
        ) by {
            assert(shorter[i] == found[i]);
        }
        lemma_merged_agents_known(t, runs, shorter);
        let before = merged_agents(runs, shorter).0;
        let run = found[found.len() - 1];
        let slot = agent_slot(before, run.id);
        lemma_agent_slot(before, run.id);
        assert(agent_known(t, run));
        let after = merged_agents(runs, found).0;
        assert forall|k: int| 0 <= k < after.len() implies agent_known(t, #[trigger] after[k]) by {
            if merged_agents(runs, shorter).1 is Err || has_agent(before, run.id) || k < slot {
                assert(agent_known(t, before[k]));
            } else if k > slot {
                assert(after[k] == before[k - 1]);
                assert(agent_known(t, before[k - 1]));
            }
        }
    }
}

/// Whether the agents that last and are new, up to the mark of the panel, are held.
spec fn agents_reached(ts: Seq<Tables>, first: PanelData, panel: PanelData) -> bool {
    forall|id: i64| #[trigger]
        agent_lasts(ts, id) && first.agent_discovered_through < id <= panel.agent_discovered_through ==> has_agent(
            panel.agents@,
            id,
        )
}

/// Whether no agent that lasts has a larger number.
spec fn agents_within(ts: Seq<Tables>, mark: i64) -> bool {
    forall|id: i64| #[trigger] agent_lasts(ts, id) ==> id <= mark
}

/// Whether each held agent that may still change was seen.
spec fn agents_seen(ts: Seq<Tables>, panel: PanelData) -> bool {
    forall|k: int|
        0 <= k < panel.agents@.len() && (#[trigger] panel.agents@[k]).pending() ==> agent_seen(
            ts,
            panel.agents@[k],
        )
}

/// Whether a command was stored when a synchronization asked its first question, and
/// still is at the end.
pub open spec fn process_lasts(ts: Seq<Tables>, id: i64) -> bool {
    ts[1].processes.contains_key(id) && ts.last().processes.contains_key(id)
}

/// Whether a command is known as it was stored at some time of a synchronization.
pub open spec fn process_seen(ts: Seq<Tables>, run: ProcessRun) -> bool {
    exists|i: int| 0 < i < ts.len() && process_current(#[trigger] ts[i], run)
}

/// What lasts was stored all the time.
proof fn lemma_process_lasts(ts: Seq<Tables>, id: i64, k: int)
    requires
        timeline(ts),
        process_lasts(ts, id),
        0 < k < ts.len(),
    ensures
        ts[k].processes.contains_key(id),
{
    assert(ts[1].sound_process(id));
    if 1 < k {
        assert(ts[k].continues(ts[1]));
    }
    if k < ts.len() - 1 {
        assert(ts[ts.len() - 1].continues(ts[k]));
    }
}

/// Merging known commands gives known commands.
proof fn lemma_merged_processes_known(t: Tables, runs: Seq<ProcessRun>, found: Seq<ProcessRun>)
    requires
        processes_ordered(runs),
        forall|k: int| 0 <= k < runs.len() ==> process_known(t, #[trigger] runs[k]),
        forall|i: int| 0 <= i < found.len() ==> process_known(t, #[trigger] found[i]),
    ensures
        processes_ordered(merged_processes(runs, found).0),
        forall|k: int|
            0 <= k < merged_processes(runs, found).0.len() ==> process_known(
                t,
                #[trigger] merged_processes(runs, found).0[k],
            ),
    decreases found.len(),
{
    lemma_merged_processes_ordered(runs, found);
    if found.len() > 0 {
        let shorter = found.drop_last();
        assert forall|i: int| 0 <= i < shorter.len() implies process_known(
            t,
            #[trigger] shorter[i],
        ) by {
            assert(shorter[i] == found[i]);
        }
        lemma_merged_processes_known(t, runs, shorter);
        let before = merged_processes(runs, shorter).0;
        let run = found[found.len() - 1];
        let slot = process_slot(before, run.id);
        lemma_process_slot(before, run.id);
        assert(process_known(t, run));
        let after = merged_processes(runs, found).0;
        assert forall|k: int| 0 <= k < after.len() implies process_known(t, #[trigger] after[k]) by {
            if merged_processes(runs, shorter).1 is Err || has_process(before, run.id) || k < slot {
                assert(process_known(t, before[k]));
            } else if k > slot {
                assert(after[k] == before[k - 1]);
                assert(process_known(t, before[k - 1]));
            }
        }
    }
}

/// Whether the commands that last and are new, up to the mark of the panel, are held.
spec fn processes_reached(ts: Seq<Tables>, first: PanelData, panel: PanelData) -> bool {
    forall|id: i64| #[trigger]
        process_lasts(ts, id) && first.discovered_through < id <= panel.discovered_through ==> has_process(
            panel.processes@,
            id,
        )
}

/// Whether no command that lasts has a larger number.
spec fn processes_within(ts: Seq<Tables>, mark: i64) -> bool {
    forall|id: i64| #[trigger] process_lasts(ts, id) ==> id <= mark
}

/// Whether each held command that may still change was seen.
spec fn processes_seen(ts: Seq<Tables>, panel: PanelData) -> bool {
    forall|k: int|
        0 <= k < panel.processes@.len() && (#[trigger] panel.processes@[k]).pending() ==> process_seen(
            ts,
            panel.processes@[k],
        )
}

/// What holds of the panel all the time while it is being synchronized.
spec fn sync_kept(ts: Seq<Tables>, first: PanelData, t: Tables, panel: PanelData) -> bool {
    &&& panel.wf()
    &&& faithful(t, panel)
    &&& complete(ts[0], first) ==> complete(t, panel)
    &&& forall|id: i64| #[trigger]
        has_agent(first.agents@, id) ==> has_agent(panel.agents@, id)
    &&& forall|id: i64| #[trigger]
        has_process(first.processes@, id) ==> has_process(panel.processes@, id)
}

/// Whether all new agents are known.
spec fn agents_discovered(ts: Seq<Tables>, first: PanelData, panel: PanelData) -> bool {
    agents_reached(ts, first, panel) && agents_within(ts, panel.agent_discovered_through)
}

/// Whether all new items are known.
spec fn all_discovered(ts: Seq<Tables>, first: PanelData, panel: PanelData) -> bool {
    &&& agents_discovered(ts, first, panel)
    &&& processes_reached(ts, first, panel)
    &&& processes_within(ts, panel.discovered_through)
}

/// What holds of the panel while something is asked.
spec fn sync_stage(
    ts: Seq<Tables>,
    first: PanelData,
    t: Tables,
    panel: PanelData,
    step: SyncStep,
) -> bool {
    match step {
        SyncStep::LatestAgent => panel == first,
        SyncStep::Agents { through, query } => {
            &&& panel.agent_discovered_through < through <= t.last_agent
            &&& query == AgentQuery::Range {
                after: panel.agent_discovered_through,
                through,
                limit: DISCOVERY_BATCH as i64,
            }
            &&& panel.discovered_through == first.discovered_through
            &&& agents_within(ts, through)
            &&& agents_reached(ts, first, panel)
        },
        SyncStep::LatestProcess => {
            &&& panel.discovered_through == first.discovered_through
            &&& agents_discovered(ts, first, panel)
        },
        SyncStep::Processes { through, process_query } => {
            &&& panel.discovered_through < through <= t.last_process
            &&& process_query == ProcessQuery::Range {
                after: panel.discovered_through,
                through,
                limit: DISCOVERY_BATCH as i64,
            }
            &&& agents_discovered(ts, first, panel)
            &&& processes_within(ts, through)
            &&& processes_reached(ts, first, panel)
        },
        SyncStep::AgentStates(ids) => {
            &&& all_discovered(ts, first, panel)
            &&& ids@ == agent_ids_pending(panel.agents@)
            &&& ids@.len() > 0
        },
        SyncStep::ProcessStates(ids) => {
            &&& all_discovered(ts, first, panel)
            &&& agents_seen(ts, panel)
            &&& ids@ == process_ids_pending(panel.processes@)
            &&& ids@.len() > 0
        },
        SyncStep::Done => {
            &&& all_discovered(ts, first, panel)
            &&& agents_seen(ts, panel)
            &&& processes_seen(ts, panel)
        },
        SyncStep::Failed(_) => true,
    }
}

/// Asking for the states of commands leads to the next stage.
proof fn lemma_asks_process_states(
    ts: Seq<Tables>,
    first: PanelData,
    t: Tables,
    panel: PanelData,
    after: PanelData,
    r: SyncStep,
)
    requires
        sync_kept(ts, first, t, panel),
        all_discovered(ts, first, panel),
        agents_seen(ts, panel),
        panel.asks_process_states(after, r),
    ensures
        sync_kept(ts, first, t, after),
        sync_stage(ts, first, t, after, r),
{
    if r is Done {
        assert forall|k: int|
            0 <= k < after.processes@.len() && (
            #[trigger] after.processes@[k]).pending() implies process_seen(
            ts,
            after.processes@[k],
        ) by {
            lemma_process_ids_pending(panel.processes@, after.processes@[k].id);
            assert(panel.processes@[k].pending());
        }
    }
}

/// Asking for the statuses of agents leads to the next stage.
proof fn lemma_asks_agent_states(
    ts: Seq<Tables>,
    first: PanelData,
    t: Tables,
    panel: PanelData,
    after: PanelData,
    r: SyncStep,
)
    requires
        sync_kept(ts, first, t, panel),
        all_discovered(ts, first, panel),
        panel.asks_agent_states(after, r),
    ensures
        sync_kept(ts, first, t, after),
        sync_stage(ts, first, t, after, r),
{
    let ids = agent_ids_pending(panel.agents@);
    if ids.len() == 0 {
        assert forall|k: int|
            0 <= k < panel.agents@.len() && (
            #[trigger] panel.agents@[k]).pending() implies agent_seen(ts, panel.agents@[k]) by {
            lemma_agent_ids_pending(panel.agents@, panel.agents@[k].id);
        }
        if foreign_agent(panel.storage, panel.agents@) is None {
            lemma_asks_process_states(ts, first, t, panel, after, r);
        }
    }
}

/// Asking for new commands leads to the next stage.
proof fn lemma_asks_processes(
    ts: Seq<Tables>,
    first: PanelData,
    t: Tables,
    panel: PanelData,
    through: i64,
    after: PanelData,
    r: SyncStep,
)
    requires
        sync_kept(ts, first, t, panel),
        agents_discovered(ts, first, panel),
        processes_within(ts, through),
        processes_reached(ts, first, panel),
        through <= t.last_process,
        panel.asks_processes(through, after, r),
    ensures
        sync_kept(ts, first, t, after),
        sync_stage(ts, first, t, after, r),
{
    if panel.discovered_through >= through {
        assert(processes_within(ts, panel.discovered_through));
        lemma_asks_agent_states(ts, first, t, panel, after, r);
    }
}

/// New agents that were found are taken over.
proof fn lemma_agents_taken(
    ts: Seq<Tables>,
    first: PanelData,
    t: Tables,
    panel: PanelData,
    through: i64,
    found: Seq<AgentRun>,
    after: PanelData,
)
    requires
        t.wf(),
        sync_kept(ts, first, t, panel),
        panel.agent_discovered_through < through <= t.last_agent,
        agents_within(ts, through),
        agents_reached(ts, first, panel),
        agents_found(
            t,
            AgentQuery::Range {
                after: panel.agent_discovered_through,
                through,
                limit: DISCOVERY_BATCH as i64,
            },
            found,
        ),
        forall|id: i64| #[trigger] agent_lasts(ts, id) ==> t.agents.contains_key(id),
        merged_agents(panel.agents@, found).1 is Ok,
        after.agents@ == merged_agents(panel.agents@, found).0,
        after.agent_discovered_through == agents_through(found, through),
        after.processes == panel.processes,
        after.discovered_through == panel.discovered_through,
    ensures
        sync_kept(ts, first, t, after),
        agents_reached(ts, first, after),
        after.agent_discovered_through <= t.last_agent,
{
    assert forall|i: int| 0 <= i < found.len() implies agent_known(t, #[trigger] found[i]) by {
        assert(agent_current(t, found[i]));
        assert(t.sound_agent(found[i].id));
    }
    lemma_merged_agents_known(t, panel.agents@, found);
    assert forall|id: i64| #[trigger] has_agent(first.agents@, id) implies has_agent(
        after.agents@,
        id,
    ) by {
        lemma_merged_agents_hold(panel.agents@, found, id);
    }
    if found.len() > 0 {
        assert(agent_current(t, found[found.len() - 1]));
        assert(t.sound_agent(found.last().id));
    }
    assert forall|id: i64| #[trigger] t.agents.contains_key(id) && (has_agent(panel.agents@, id)
        || panel.agent_discovered_through < id <= after.agent_discovered_through) implies has_agent(
        after.agents@,
        id,
    ) by {
        if has_agent(panel.agents@, id) {
            lemma_merged_agents_hold(panel.agents@, found, id);
        } else {
            discovered_agents_are_held(t, panel, through, found, id);
        }
    }
    assert forall|id: i64| #[trigger] agent_lasts(ts, id) && first.agent_discovered_through < id
        <= after.agent_discovered_through implies has_agent(after.agents@, id) by {
        assert(t.agents.contains_key(id));
    }
}

/// New commands that were found are taken over.
proof fn lemma_processes_taken(
    ts: Seq<Tables>,
    first: PanelData,
    t: Tables,
    panel: PanelData,
    through: i64,
    found: Seq<ProcessRun>,
    after: PanelData,
)
    requires
        t.wf(),
        sync_kept(ts, first, t, panel),
        panel.discovered_through < through <= t.last_process,
        processes_within(ts, through),
        processes_reached(ts, first, panel),
        processes_found(
            t,
            ProcessQuery::Range {
                after: panel.discovered_through,
                through,
                limit: DISCOVERY_BATCH as i64,
            },
            found,
        ),
        forall|id: i64| #[trigger] process_lasts(ts, id) ==> t.processes.contains_key(id),
        merged_processes(panel.processes@, found).1 is Ok,
        after.processes@ == merged_processes(panel.processes@, found).0,
        after.discovered_through == processes_through(found, through),
        after.agents == panel.agents,
        after.agent_discovered_through == panel.agent_discovered_through,
    ensures
        sync_kept(ts, first, t, after),
        processes_reached(ts, first, after),
        after.discovered_through <= t.last_process,
{
    assert forall|i: int| 0 <= i < found.len() implies process_known(t, #[trigger] found[i]) by {
        assert(process_current(t, found[i]));
        assert(t.sound_process(found[i].id));
    }
    lemma_merged_processes_known(t, panel.processes@, found);
    assert forall|id: i64| #[trigger] has_process(first.processes@, id) implies has_process(
        after.processes@,
        id,
    ) by {
        lemma_merged_processes_hold(panel.processes@, found, id);
    }
    if found.len() > 0 {
        assert(process_current(t, found[found.len() - 1]));
        assert(t.sound_process(found.last().id));
    }
    assert forall|id: i64| #[trigger] t.processes.contains_key(id) && (has_process(panel.processes@, id)
        || panel.discovered_through < id <= after.discovered_through) implies has_process(
        after.processes@,
        id,
    ) by {
        if has_process(panel.processes@, id) {
            lemma_merged_processes_hold(panel.processes@, found, id);
        } else {
            discovered_processes_are_held(t, panel, through, found, id);
        }
    }
    assert forall|id: i64| #[trigger] process_lasts(ts, id) && first.discovered_through < id
        <= after.discovered_through implies has_process(after.processes@, id) by {
        assert(t.processes.contains_key(id));
    }
}

/// The states of agents that were read are taken over.
proof fn lemma_agent_states_taken(
    ts: Seq<Tables>,
    first: PanelData,
    k: int,
    panel: PanelData,
    fetch: Fetch<AgentStatusRow>,
    after: PanelData,
)
    requires
        0 < k < ts.len(),
        ts[k].wf(),
        sync_kept(ts, first, ts[k], panel),
        agent_ids_pending(panel.agents@).len() > 0,
        answers_agent_states(ts[k], agent_ids_pending(panel.agents@), fetch),
        agents_synced(panel.storage, panel.agents@, fetch).1 is Ok,
        after == (PanelData { agents: after.agents, ..panel }),
        after.agents@ == agents_synced(panel.storage, panel.agents@, fetch).0,
    ensures
        sync_kept(ts, first, ts[k], after),
        forall|id: i64| #[trigger]
            has_agent(after.agents@, id) <==> has_agent(panel.agents@, id),
        agents_seen(ts, after),
{
    answered_agents_are_current(ts[k], panel.storage, panel.agents@, fetch);
    let before = panel.agents@;
    let runs = after.agents@;
    assert forall|i: int, j: int| 0 <= i < j < runs.len() implies runs[i].id < runs[j].id by {
        assert(runs[i].id == before[i].id && runs[j].id == before[j].id);
    }
    assert forall|id: i64| #[trigger] has_agent(runs, id) <==> has_agent(before, id) by {
        lemma_agent_slot(runs, id);
        lemma_agent_slot(before, id);
        if has_agent(runs, id) {
            let i = agent_slot(runs, id);
            assert(runs[i].id == before[i].id);
            lemma_agent_found(before, i);
        }
        if has_agent(before, id) {
            let i = agent_slot(before, id);
            assert(runs[i].id == before[i].id);
            lemma_agent_found(runs, i);
        }
    }
    assert forall|i: int|
        0 <= i < runs.len() && (#[trigger] runs[i]).pending() implies agent_seen(ts, runs[i]) by {
        assert(before[i].pending() ==> agent_current(ts[k], runs[i]));
    }
    assert(forall|i: int| 0 <= i < runs.len() ==> agent_known(ts[k], #[trigger] runs[i]));
}

/// The states of commands that were read are taken over.
proof fn lemma_process_states_taken(
    ts: Seq<Tables>,
    first: PanelData,
    k: int,
    panel: PanelData,
    fetch: Fetch<ProcessStateRow>,
    after: PanelData,
)
    requires
        0 < k < ts.len(),
        ts[k].wf(),
        sync_kept(ts, first, ts[k], panel),
        process_ids_pending(panel.processes@).len() > 0,
        answers_process_states(ts[k], process_ids_pending(panel.processes@), fetch),
        processes_synced(panel.storage, panel.processes@, fetch).1 is Ok,
        after == (PanelData { processes: after.processes, ..panel }),
        after.processes@ == processes_synced(panel.storage, panel.processes@, fetch).0,
    ensures
        sync_kept(ts, first, ts[k], after),
        forall|id: i64| #[trigger]
            has_process(after.processes@, id) <==> has_process(panel.processes@, id),
        processes_seen(ts, after),
{
    answered_processes_are_current(ts[k], panel.storage, panel.processes@, fetch);
    let before = panel.processes@;
    let runs = after.processes@;
    assert forall|i: int, j: int| 0 <= i < j < runs.len() implies runs[i].id < runs[j].id by {
        assert(runs[i].id == before[i].id && runs[j].id == before[j].id);
    }
    assert forall|id: i64| #[trigger] has_process(runs, id) <==> has_process(before, id) by {
        lemma_process_slot(runs, id);
        lemma_process_slot(before, id);
        if has_process(runs, id) {
            let i = process_slot(runs, id);
            assert(runs[i].id == before[i].id);
            lemma_process_found(before, i);
        }
        if has_process(before, id) {
            let i = process_slot(before, id);
            assert(runs[i].id == before[i].id);
            lemma_process_found(runs, i);
        }
    }
    assert forall|i: int|
        0 <= i < runs.len() && (#[trigger] runs[i]).pending() implies process_seen(ts, runs[i]) by {
        assert(before[i].pending() ==> process_current(ts[k], runs[i]));
    }
    assert(forall|i: int| 0 <= i < runs.len() ==> process_known(ts[k], #[trigger] runs[i]));
}

/// Each step of a synchronization leaves the panel as the next question needs it.
proof fn lemma_sync_stage(
    ts: Seq<Tables>,
    panels: Seq<PanelData>,
    events: Seq<SyncEvent>,
    steps: Seq<SyncStep>,
    k: int,
)
    requires
        sync_run(ts, panels, events, steps),
        faithful(ts[0], panels[0]),
        0 <= k < steps.len(),
    ensures
        steps[k] is Failed || sync_kept(ts, panels[0], ts[k], panels[k + 1]),
        sync_stage(ts, panels[0], ts[k], panels[k + 1], steps[k]),
    decreases k,
{
    let first = panels[0];
    let before = panels[k];
    let after = panels[k + 1];
    let r = steps[k];
    let t = ts[k];
    assert(before.sync_follows(events[k], after, r));
    if k > 0 {
        lemma_sync_stage(ts, panels, events, steps, k - 1);
        assert(sync_answered(t, steps[k - 1], events[k]));
        assert(t.continues(ts[k - 1]));
        panels_stay_faithful(ts[k - 1], t, before);
        assert forall|id: i64| #[trigger] agent_lasts(ts, id) implies t.agents.contains_key(
            id,
        ) && id <= t.last_agent by {
            lemma_agent_lasts(ts, id, k);
            assert(t.sound_agent(id));
        }
        assert forall|id: i64| #[trigger] process_lasts(ts, id) implies t.processes.contains_key(
            id,
        ) && id <= t.last_process by {
            lemma_process_lasts(ts, id, k);
            assert(t.sound_process(id));
        }
        match events[k] {
            SyncEvent::Started => {},
            SyncEvent::LatestAgent(latest) => {
                if latest is Ok {
                    assert(agents_reached(ts, first, after));
                    if latest->Ok_0 is Some {
                        assert(t.agents.dom().contains(latest->Ok_0->0));
                        assert(t.agents.contains_key(latest->Ok_0->0));
                        assert(t.sound_agent(latest->Ok_0->0));
                    }
                    assert forall|id: i64| #[trigger] agent_lasts(ts, id) implies id
                        <= or_zero(latest->Ok_0) by {
                        assert(t.agents.dom().contains(id));
                    }
                }
            },
            SyncEvent::Agents { through, found } => {
                if found is Ok && merged_agents(before.agents@, found->Ok_0@).1 is Ok {
                    lemma_agents_taken(ts, first, t, before, through, found->Ok_0@, after);
                }
            },
            SyncEvent::LatestProcess(latest) => {
                if latest is Ok {
                    let through = or_zero(latest->Ok_0);
                    if latest->Ok_0 is Some {
                        assert(t.processes.dom().contains(latest->Ok_0->0));
                        assert(t.processes.contains_key(latest->Ok_0->0));
                        assert(t.sound_process(latest->Ok_0->0));
                    }
                    assert forall|id: i64| #[trigger] process_lasts(ts, id) implies id
                        <= through by {
                        assert(t.processes.dom().contains(id));
                    }
                    assert(processes_reached(ts, first, before));
                    lemma_asks_processes(ts, first, t, before, through, after, r);
                }
            },
            SyncEvent::Processes { through, found_processes } => {
                if found_processes is Ok && merged_processes(
                    before.processes@,
                    found_processes->Ok_0@,
                ).1 is Ok {
                    let found = found_processes->Ok_0@;
                    let middle = PanelData {
                        discovered_through: processes_through(found, through),
                        ..(PanelData { processes: after.processes, ..before }).normalized()
                    };
                    lemma_processes_taken(ts, first, t, before, through, found, middle);
                    lemma_asks_processes(ts, first, t, middle, through, after, r);
                }
            },
            SyncEvent::AgentStates(fetch) => {
                if agents_synced(
                    before.storage,
                    before.agents@,
                    fetch,
                ).1 is Ok {
                    let middle = PanelData { agents: after.agents, ..before };
                    lemma_agent_states_taken(ts, first, k, before, fetch, middle);
                    lemma_asks_process_states(ts, first, t, middle, after, r);
                }
            },
            SyncEvent::ProcessStates(fetch) => {
                if processes_synced(
                    before.storage,
                    before.processes@,
                    fetch,
                ).1 is Ok {
                    let middle = PanelData { processes: after.processes, ..before };
                    lemma_process_states_taken(ts, first, k, before, fetch, middle);
                }
            },
        }
    }
}

/// A synchronization that is done is complete, and what the panel knows is what was
/// stored while it ran.
///
/// Each item with a number above the old marks, stored when the first question was
/// asked and still stored at the end, is held, and so is all that was held before.
/// Each item that may still change is known as it was stored at some time of the
/// synchronization, and so is each other item that is still stored. Whatever the
/// database failed to answer, or an item that had been removed, would have led to a
/// failure.
pub proof fn synchronization_is_complete(
    ts: Seq<Tables>,
    panels: Seq<PanelData>,
    events: Seq<SyncEvent>,
    steps: Seq<SyncStep>,
)
    requires
        sync_run(ts, panels, events, steps),
        faithful(ts[0], panels[0]),
        steps.last() is Done,
    ensures
        panels.last().wf(),
        faithful(ts.last(), panels.last()),
        forall|id: i64| #[trigger]
            has_agent(panels[0].agents@, id) ==> has_agent(panels.last().agents@, id),
        forall|id: i64| #[trigger]
            has_process(panels[0].processes@, id) ==> has_process(panels.last().processes@, id),
        forall|id: i64| #[trigger]
            agent_lasts(ts, id) && panels[0].agent_discovered_through < id ==> has_agent(
                panels.last().agents@,
                id,
            ),
        forall|id: i64| #[trigger]
            process_lasts(ts, id) && panels[0].discovered_through < id ==> has_process(
                panels.last().processes@,
                id,
            ),
        forall|k: int|
            0 <= k < panels.last().agents@.len() && ((
            #[trigger] panels.last().agents@[k]).pending() || ts.last().agents.contains_key(
                panels.last().agents@[k].id,
            )) ==> agent_seen(ts, panels.last().agents@[k]),
        forall|k: int|
            0 <= k < panels.last().processes@.len() && ((
            #[trigger] panels.last().processes@[k]).pending()
                || ts.last().processes.contains_key(panels.last().processes@[k].id))
                ==> process_seen(ts, panels.last().processes@[k]),
{
    let last = steps.len() - 1;
    let t = ts[last];
    let panel = panels[last + 1];
    lemma_sync_stage(ts, panels, events, steps, last);
    assert(panels[0].sync_follows(events[0], panels[1], steps[0]));
    assert(last > 0);
    assert forall|k: int|
        0 <= k < panel.agents@.len() && ((#[trigger] panel.agents@[k]).pending()
            || t.agents.contains_key(panel.agents@[k].id)) implies agent_seen(
        ts,
        panel.agents@[k],
    ) by {
        let run = panel.agents@[k];
        assert(agent_known(t, run));
        if !run.pending() {
            assert(t.sound_agent(run.id));
            assert(agent_current(ts[last], run));
        }
    }
    assert forall|k: int|
        0 <= k < panel.processes@.len() && ((#[trigger] panel.processes@[k]).pending()
            || t.processes.contains_key(panel.processes@[k].id)) implies process_seen(
        ts,
        panel.processes@[k],
    ) by {
        let run = panel.processes@[k];
        assert(process_known(t, run));
        if !run.pending() {
            assert(t.sound_process(run.id));
            assert(process_current(ts[last], run));
        }
    }
}

/// While nothing else happens, a synchronization that is done leaves the panel with
/// exactly the states that are stored: every item that may still change, and every
/// other item that is still stored, is known as it is.
pub proof fn quiet_synchronization_is_exact(
    t: Tables,
    ts: Seq<Tables>,
    panels: Seq<PanelData>,
    events: Seq<SyncEvent>,
    steps: Seq<SyncStep>,
)
    requires
        sync_run(ts, panels, events, steps),
        faithful(t, panels[0]),
        steps.last() is Done,
        forall|i: int| 0 <= i < ts.len() ==> ts[i] == t,
    ensures
        forall|id: i64| #[trigger]
            t.agents.contains_key(id) && panels[0].agent_discovered_through < id ==> has_agent(
                panels.last().agents@,
                id,
            ),
        forall|id: i64| #[trigger]
            t.processes.contains_key(id) && panels[0].discovered_through < id ==> has_process(
                panels.last().processes@,
                id,
            ),
        forall|k: int|
            0 <= k < panels.last().agents@.len() && ((
            #[trigger] panels.last().agents@[k]).pending() || t.agents.contains_key(
                panels.last().agents@[k].id,
            )) ==> agent_current(t, panels.last().agents@[k]),
        forall|k: int|
            0 <= k < panels.last().processes@.len() && ((
            #[trigger] panels.last().processes@[k]).pending() || t.processes.contains_key(
                panels.last().processes@[k].id,
            )) ==> process_current(t, panels.last().processes@[k]),
{
    let last = steps.len() - 1;
    assert(panels[0].sync_follows(events[0], panels[1], steps[0]));
    assert(last > 0);
    assert(ts[0] == t && ts[1] == t && ts[last] == t);
    synchronization_is_complete(ts, panels, events, steps);
    assert forall|id: i64| #[trigger]
        t.agents.contains_key(id) && panels[0].agent_discovered_through < id implies has_agent(
        panels.last().agents@,
        id,
    ) by {
        assert(agent_lasts(ts, id));
    }
    assert forall|id: i64| #[trigger]
        t.processes.contains_key(id) && panels[0].discovered_through < id implies has_process(
        panels.last().processes@,
        id,
    ) by {
        assert(process_lasts(ts, id));
    }
    assert forall|k: int|
        0 <= k < panels.last().agents@.len() && ((#[trigger] panels.last().agents@[k]).pending()
            || t.agents.contains_key(panels.last().agents@[k].id)) implies agent_current(
        t,
        panels.last().agents@[k],
    ) by {
        assert(agent_seen(ts, panels.last().agents@[k]));
    }
    assert forall|k: int|
        0 <= k < panels.last().processes@.len() && ((
        #[trigger] panels.last().processes@[k]).pending() || t.processes.contains_key(
            panels.last().processes@[k].id,
        )) implies process_current(t, panels.last().processes@[k]) by {
        assert(process_seen(ts, panels.last().processes@[k]));
    }
}

/// Nothing is missed: where the panel had lost nothing out of sight, it has not
/// after a synchronization either, and then it holds each item that was stored when
/// the first question was asked and still is, but for killed agents and acknowledged
/// commands.
pub proof fn synchronization_misses_nothing(
    ts: Seq<Tables>,
    panels: Seq<PanelData>,
    events: Seq<SyncEvent>,
    steps: Seq<SyncStep>,
)
    requires
        sync_run(ts, panels, events, steps),
        faithful(ts[0], panels[0]),
        complete(ts[0], panels[0]),
        steps.last() is Done,
    ensures
        complete(ts.last(), panels.last()),
        forall|id: i64| #[trigger]
            agent_lasts(ts, id) ==> has_agent(panels.last().agents@, id)
                || ts.last().agents[id].state().0 == AgentStatus::Killed,
        forall|id: i64| #[trigger]
            process_lasts(ts, id) ==> has_process(panels.last().processes@, id)
                || ts.last().processes[id].state() is Acknowledged,
{
    let last = steps.len() - 1;
    lemma_sync_stage(ts, panels, events, steps, last);
    let panel = panels[last + 1];
    assert(complete(ts[last], panel));
    assert forall|id: i64| #[trigger] agent_lasts(ts, id) implies has_agent(panel.agents@, id)
        || ts.last().agents[id].state().0 == AgentStatus::Killed by {
        assert(ts[last].agents.contains_key(id));
    }
    assert forall|id: i64| #[trigger] process_lasts(ts, id) implies has_process(
        panel.processes@,
        id,
    ) || ts.last().processes[id].state() is Acknowledged by {
        assert(ts[last].processes.contains_key(id));
    }
}

/// Whether an event is one that follows on a step of the loading, with what the
/// tables hold at that time where it brings an answer.
pub open spec fn load_answered(t: Tables, step: LoadStep, event: LoadEvent) -> bool {
    match (step, event) {
        (LoadStep::LatestAgent, LoadEvent::LatestAgent(latest)) => latest matches Ok(id)
            ==> is_latest(t.agents.dom(), id),
        (
            LoadStep::LatestProcess { agent_mark },
            LoadEvent::LatestProcess { agent_mark: mark, latest },
        ) => mark == agent_mark && (latest matches Ok(id) ==> is_latest(t.processes.dom(), id)),
        (
            LoadStep::Agents { marks, query },
            LoadEvent::Agents { marks: kept, found },
        ) => kept == marks && (found matches Ok(found) ==> agents_found(t, query, found@)),
        (
            LoadStep::Processes { marks, agents, process_query },
            LoadEvent::Processes { marks: kept, agents: listed, found_processes },
        ) => kept == marks && listed == agents && (found_processes matches Ok(found)
            ==> processes_found(t, process_query, found@)),
        _ => false,
    }
}

/// Whether events and steps are those of a loading, each event at the time of its
/// tables.
pub open spec fn load_run(
    ts: Seq<Tables>,
    storage: Storage,
    dry_run: bool,
    events: Seq<LoadEvent>,
    steps: Seq<LoadStep>,
) -> bool {
    &&& timeline(ts)
    &&& steps.len() > 0 && ts.len() == steps.len() && events.len() == steps.len()
    &&& events[0] is Started
    &&& forall|i: int|
        0 <= i < steps.len() ==> PanelData::load_follows(
            storage,
            dry_run,
            #[trigger] events[i],
            steps[i],
        )
    &&& forall|i: int|
        0 < i < steps.len() ==> load_answered(ts[i], steps[i - 1], #[trigger] events[i])
}

/// What the questions of a loading are about, and what has been answered.
spec fn load_stage(ts: Seq<Tables>, step: LoadStep, k: int) -> bool {
    match step {
        LoadStep::LatestAgent => k == 0,
        LoadStep::LatestProcess { agent_mark } => {
            &&& k == 1
            &&& agent_mark <= ts[1].last_agent
        },
        LoadStep::Agents { marks, query } => {
            &&& k == 2
            &&& marks.agent <= ts[1].last_agent
            &&& marks.process <= ts[2].last_process
            &&& query == AgentQuery::Unkilled
        },
        LoadStep::Processes { marks, agents, process_query } => {
            &&& k == 3
            &&& marks.agent <= ts[1].last_agent
            &&& marks.process <= ts[2].last_process
            &&& agents_found(ts[3], AgentQuery::Unkilled, agents@)
            &&& process_query == ProcessQuery::Unacked
        },
        LoadStep::Loaded(panel) => {
            &&& k == 4
            &&& panel.wf()
            &&& faithful(ts[4], panel)
            &&& complete(ts[4], panel)
        },
        LoadStep::Failed(_) => true,
    }
}

/// A panel that was loaded from lists that are younger than its marks is faithful
/// and complete.
proof fn lemma_loaded(
    marked: Tables,
    process_marked: Tables,
    listed: Tables,
    t: Tables,
    storage: Storage,
    dry_run: bool,
    marks: Marks,
    agents: Seq<AgentRun>,
    processes: Seq<ProcessRun>,
    panel: PanelData,
)
    requires
        listed.wf(),
        t.wf(),
        listed.continues(marked),
        t.continues(listed),
        t.continues(process_marked),
        marks.agent <= marked.last_agent,
        marks.process <= process_marked.last_process,
        agents_found(listed, AgentQuery::Unkilled, agents),
        processes_found(t, ProcessQuery::Unacked, processes),
        merged_agents(Seq::empty(), agents).1 is Ok,
        merged_processes(Seq::empty(), processes).1 is Ok,
        panel.loaded_from(storage, dry_run, marks, agents, processes),
    ensures
        faithful(t, panel),
        complete(t, panel),
{
    assert forall|i: int| 0 <= i < agents.len() implies agent_known(t, #[trigger] agents[i]) by {
        assert(agent_current(listed, agents[i]));
        assert(listed.sound_agent(agents[i].id));
    }
    lemma_merged_agents_known(t, Seq::empty(), agents);
    assert forall|i: int| 0 <= i < processes.len() implies process_known(
        t,
        #[trigger] processes[i],
    ) by {
        assert(process_current(t, processes[i]));
        assert(t.sound_process(processes[i].id));
    }
    lemma_merged_processes_known(t, Seq::empty(), processes);
    assert forall|id: i64| #[trigger] t.agents.contains_key(id) implies has_agent(
        panel.agents@,
        id,
    ) || panel.agent_discovered_through < id || t.agents[id].state().0
        == AgentStatus::Killed by {
        if id <= listed.last_agent {
            assert(listed.agents.contains_key(id));
            assert(listed.sound_agent(id));
            if listed.agents[id].status != 5 {
                loaded_agents_are_held(listed, agents, id);
            }
        }
    }
    assert forall|id: i64| #[trigger] t.processes.contains_key(id) implies has_process(
        panel.processes@,
        id,
    ) || panel.discovered_through < id || t.processes[id].state() is Acknowledged by {
        assert(t.sound_process(id));
        if t.processes[id].acked == 0 {
            loaded_processes_are_held(t, processes, id);
        }
    }
}

/// Each step of a loading asks its question with what has been answered before.
proof fn lemma_load_stage(
    ts: Seq<Tables>,
    storage: Storage,
    dry_run: bool,
    events: Seq<LoadEvent>,
    steps: Seq<LoadStep>,
    k: int,
)
    requires
        load_run(ts, storage, dry_run, events, steps),
        0 <= k < steps.len(),
    ensures
        load_stage(ts, steps[k], k),
    decreases k,
{
    assert(PanelData::load_follows(storage, dry_run, events[k], steps[k]));
    if k > 0 {
        lemma_load_stage(ts, storage, dry_run, events, steps, k - 1);
        let t = ts[k];
        assert(load_answered(t, steps[k - 1], events[k]));
        assert(t.wf());
        match events[k] {
            LoadEvent::LatestAgent(latest) => {
                if latest is Ok && latest->Ok_0 is Some {
                    assert(t.agents.dom().contains(latest->Ok_0->0));
                    assert(t.agents.contains_key(latest->Ok_0->0));
                    assert(t.sound_agent(latest->Ok_0->0));
                }
            },
            LoadEvent::LatestProcess { agent_mark, latest } => {
                if latest is Ok && latest->Ok_0 is Some {
                    assert(t.processes.dom().contains(latest->Ok_0->0));
                    assert(t.processes.contains_key(latest->Ok_0->0));
                    assert(t.sound_process(latest->Ok_0->0));
                }
            },
            LoadEvent::Processes { marks, agents, found_processes } => {
                if steps[k] is Loaded {
                    assert(ts[3].continues(ts[1]) && ts[4].continues(ts[3]) && ts[4].continues(
                        ts[2],
                    ));
                    assert(ts[3].wf());
                    lemma_loaded(
                        ts[1],
                        ts[2],
                        ts[3],
                        t,
                        storage,
                        dry_run,
                        marks,
                        agents@,
                        found_processes->Ok_0@,
                        steps[k]->Loaded_0,
                    );
                }
            },
            _ => {},
        }
    }
}

/// A loaded panel has lost nothing out of sight, whatever happened between the
/// questions: an item that is in neither list is a killed agent, an acknowledged
/// command, or has a number above the marks, so that it is still discovered.
pub proof fn loading_misses_nothing(
    ts: Seq<Tables>,
    storage: Storage,
    dry_run: bool,
    events: Seq<LoadEvent>,
    steps: Seq<LoadStep>,
    panel: PanelData,
)
    requires
        load_run(ts, storage, dry_run, events, steps),
        steps.last() == LoadStep::Loaded(panel),
    ensures
        panel.wf(),
        faithful(ts.last(), panel),
        complete(ts.last(), panel),
{
    lemma_load_stage(ts, storage, dry_run, events, steps, steps.len() - 1);
}

/// Loading the panel and then synchronizing it misses nothing: an item that is stored
/// when the synchronization begins, and still is when it is done, is held, unless it is
/// a killed agent or an acknowledged command. It does not matter whether the item
/// appeared before the marks were read, between the marks and the lists, or after
/// them.
pub proof fn loading_and_synchronizing_miss_nothing(
    loading: Seq<Tables>,
    storage: Storage,
    dry_run: bool,
    load_events: Seq<LoadEvent>,
    load_steps: Seq<LoadStep>,
    ts: Seq<Tables>,
    panels: Seq<PanelData>,
    events: Seq<SyncEvent>,
    steps: Seq<SyncStep>,
)
    requires
        load_run(loading, storage, dry_run, load_events, load_steps),
        sync_run(ts, panels, events, steps),
        load_steps.last() == LoadStep::Loaded(panels[0]),
        ts[0].continues(loading.last()),
        steps.last() is Done,
    ensures
        forall|id: i64| #[trigger]
            agent_lasts(ts, id) ==> has_agent(panels.last().agents@, id)
                || ts.last().agents[id].state().0 == AgentStatus::Killed,
        forall|id: i64| #[trigger]
            process_lasts(ts, id) ==> has_process(panels.last().processes@, id)
                || ts.last().processes[id].state() is Acknowledged,
{
    loading_misses_nothing(loading, storage, dry_run, load_events, load_steps, panels[0]);
    assert(loading[loading.len() - 1].wf() && ts[0].wf());
    panels_stay_faithful(loading.last(), ts[0], panels[0]);
    synchronization_misses_nothing(ts, panels, events, steps);
}

/// An item that was replaced by what is known of it otherwise.
proof fn lemma_agent_replaced(t: Tables, runs: Seq<AgentRun>, k: int, run: AgentRun)
    requires
        agents_ordered(runs),
        forall|i: int| 0 <= i < runs.len() ==> agent_known(t, #[trigger] runs[i]),
        0 <= k < runs.len(),
        run.id == runs[k].id,
        agent_known(t, run),
    ensures
        agents_ordered(runs.update(k, run)),
        forall|i: int|
            0 <= i < runs.len() ==> agent_known(t, #[trigger] runs.update(k, run)[i]),
        forall|id: i64| #[trigger]
            has_agent(runs, id) ==> has_agent(runs.update(k, run), id),
{
    let after = runs.update(k, run);
    assert forall|i: int, j: int| 0 <= i < j < after.len() implies after[i].id < after[j].id by {
        assert(after[i].id == runs[i].id && after[j].id == runs[j].id);
    }
    assert forall|i: int| 0 <= i < runs.len() implies agent_known(t, #[trigger] after[i]) by {
        assert(agent_known(t, runs[i]));
    }
    assert forall|id: i64| #[trigger] has_agent(runs, id) implies has_agent(after, id) by {
        lemma_agent_slot(runs, id);
        let i = agent_slot(runs, id);
        assert(after[i].id == id);
        lemma_agent_found(after, i);
    }
}

/// An item that was taken out of the others.
proof fn lemma_agent_removed(t: Tables, runs: Seq<AgentRun>, target: i64)
    requires
        agents_ordered(runs),
        forall|i: int| 0 <= i < runs.len() ==> agent_known(t, #[trigger] runs[i]),
        has_agent(runs, target),
    ensures
        ({
            let after = runs.remove(agent_slot(runs, target));
            &&& agents_ordered(after)
            &&& forall|i: int| 0 <= i < after.len() ==> agent_known(t, #[trigger] after[i])
            &&& forall|id: i64| #[trigger]
                has_agent(runs, id) && id != target ==> has_agent(after, id)
        }),
{
    lemma_agent_slot(runs, target);
    let slot = agent_slot(runs, target);
    let after = runs.remove(slot);
    assert forall|i: int| 0 <= i < after.len() implies agent_known(t, #[trigger] after[i]) by {
        let j = if i < slot {
            i
        } else {
            i + 1
        };
        assert(after[i] == runs[j]);
    }
    assert forall|id: i64| #[trigger] has_agent(runs, id) && id != target implies has_agent(
        after,
        id,
    ) by {
        lemma_agent_slot(runs, id);
        let i = agent_slot(runs, id);
        let j = if i < slot {
            i
        } else {
            i - 1
        };
        assert(after[j] == runs[i]);
        lemma_agent_found(after, j);
    }
}

/// Merging agents as they are stored into known ones meets no contradiction.
proof fn lemma_stored_agents_merge(t: Tables, runs: Seq<AgentRun>, found: Seq<AgentRun>)
    requires
        t.wf(),
        agents_ordered(runs),
        forall|k: int| 0 <= k < runs.len() ==> agent_known(t, #[trigger] runs[k]),
        forall|i: int| 0 <= i < found.len() ==> agent_current(t, #[trigger] found[i]),
    ensures
        merged_agents(runs, found).1 is Ok,
    decreases found.len(),
{
    if found.len() > 0 {
        let shorter = found.drop_last();
        assert forall|i: int| 0 <= i < shorter.len() implies agent_current(
            t,
            #[trigger] shorter[i],
        ) && agent_known(t, shorter[i]) by {
            assert(shorter[i] == found[i]);
            assert(t.sound_agent(found[i].id));
        }
        lemma_stored_agents_merge(t, runs, shorter);
        lemma_merged_agents_known(t, runs, shorter);
        let before = merged_agents(runs, shorter).0;
        let run = found[found.len() - 1];
        assert(agent_current(t, run));
        assert(t.sound_agent(run.id));
        lemma_agent_slot(before, run.id);
        if has_agent(before, run.id) {
            assert(agent_known(t, before[agent_slot(before, run.id)]));
        }
    }
}

/// An item that was replaced by what is known of it otherwise.
proof fn lemma_process_replaced(t: Tables, runs: Seq<ProcessRun>, k: int, run: ProcessRun)
    requires
        processes_ordered(runs),
        forall|i: int| 0 <= i < runs.len() ==> process_known(t, #[trigger] runs[i]),
        0 <= k < runs.len(),
        run.id == runs[k].id,
        process_known(t, run),
    ensures
        processes_ordered(runs.update(k, run)),
        forall|i: int|
            0 <= i < runs.len() ==> process_known(t, #[trigger] runs.update(k, run)[i]),
        forall|id: i64| #[trigger]
            has_process(runs, id) ==> has_process(runs.update(k, run), id),
{
    let after = runs.update(k, run);
    assert forall|i: int, j: int| 0 <= i < j < after.len() implies after[i].id < after[j].id by {
        assert(after[i].id == runs[i].id && after[j].id == runs[j].id);
    }
    assert forall|i: int| 0 <= i < runs.len() implies process_known(t, #[trigger] after[i]) by {
        assert(process_known(t, runs[i]));
    }
    assert forall|id: i64| #[trigger] has_process(runs, id) implies has_process(after, id) by {
        lemma_process_slot(runs, id);
        let i = process_slot(runs, id);
        assert(after[i].id == id);
        lemma_process_found(after, i);
    }
}

/// An item that was taken out of the others.
proof fn lemma_process_removed(t: Tables, runs: Seq<ProcessRun>, target: i64)
    requires
        processes_ordered(runs),
        forall|i: int| 0 <= i < runs.len() ==> process_known(t, #[trigger] runs[i]),
        has_process(runs, target),
    ensures
        ({
            let after = runs.remove(process_slot(runs, target));
            &&& processes_ordered(after)
            &&& forall|i: int| 0 <= i < after.len() ==> process_known(t, #[trigger] after[i])
            &&& forall|id: i64| #[trigger]
                has_process(runs, id) && id != target ==> has_process(after, id)
        }),
{
    lemma_process_slot(runs, target);
    let slot = process_slot(runs, target);
    let after = runs.remove(slot);
    assert forall|i: int| 0 <= i < after.len() implies process_known(t, #[trigger] after[i]) by {
        let j = if i < slot {
            i
        } else {
            i + 1
        };
        assert(after[i] == runs[j]);
    }
    assert forall|id: i64| #[trigger] has_process(runs, id) && id != target implies has_process(
        after,
        id,
    ) by {
        lemma_process_slot(runs, id);
        let i = process_slot(runs, id);
        let j = if i < slot {
            i
        } else {
            i - 1
        };
        assert(after[j] == runs[i]);
        lemma_process_found(after, j);
    }
}

/// Merging commands as they are stored into known ones meets no contradiction.
proof fn lemma_stored_processes_merge(t: Tables, runs: Seq<ProcessRun>, found: Seq<ProcessRun>)
    requires
        t.wf(),
        processes_ordered(runs),
        forall|k: int| 0 <= k < runs.len() ==> process_known(t, #[trigger] runs[k]),
        forall|i: int| 0 <= i < found.len() ==> process_current(t, #[trigger] found[i]),
    ensures
        merged_processes(runs, found).1 is Ok,
    decreases found.len(),
{
    if found.len() > 0 {
        let shorter = found.drop_last();
        assert forall|i: int| 0 <= i < shorter.len() implies process_current(
            t,
            #[trigger] shorter[i],
        ) && process_known(t, shorter[i]) by {
            assert(shorter[i] == found[i]);
            assert(t.sound_process(found[i].id));
        }
        lemma_stored_processes_merge(t, runs, shorter);
        lemma_merged_processes_known(t, runs, shorter);
        let before = merged_processes(runs, shorter).0;
        let run = found[found.len() - 1];
        assert(process_current(t, run));
        assert(t.sound_process(run.id));
        lemma_process_slot(before, run.id);
        if has_process(before, run.id) {
            assert(process_known(t, before[process_slot(before, run.id)]));
        }
    }
}

/// Items as they are stored contradict nothing that a faithful panel knows, so that
/// they can all be taken over.
pub proof fn stored_items_contradict_nothing(
    t: Tables,
    panel: PanelData,
    agents: Seq<AgentRun>,
    processes: Seq<ProcessRun>,
)
    requires
        t.wf(),
        panel.wf(),
        faithful(t, panel),
        forall|i: int| 0 <= i < agents.len() ==> agent_current(t, #[trigger] agents[i]),
        forall|i: int| 0 <= i < processes.len() ==> process_current(t, #[trigger] processes[i]),
    ensures
        merged_agents(panel.agents@, agents).1 is Ok,
        merged_processes(panel.processes@, processes).1 is Ok,
{
    lemma_stored_agents_merge(t, panel.agents@, agents);
    lemma_stored_processes_merge(t, panel.processes@, processes);
}

/// Reading old commands keeps the panel faithful and complete, and meets no
/// contradiction.
pub proof fn history_keeps_the_panel_faithful(
    t: Tables,
    panel: PanelData,
    found: Result<Vec<ProcessRun>, Error>,
    after: PanelData,
    r: Result<(), Error>,
)
    requires
        t.wf(),
        panel.wf(),
        faithful(t, panel),
        panel.history_follows(found, after, r),
        panel.history_wanted() ==> (found matches Ok(found) ==> processes_found(
            t,
            ProcessQuery::Range {
                after: panel.history_after,
                through: panel.history_end(),
                limit: HISTORY_BATCH as i64,
            },
            found@,
        )),
    ensures
        faithful(t, after),
        complete(t, panel) ==> complete(t, after),
        panel.history_wanted() && found is Ok ==> r is Ok,
{
    if panel.history_wanted() && found is Ok {
        let listed = found->Ok_0@;
        assert forall|i: int| 0 <= i < listed.len() implies process_known(
            t,
            #[trigger] listed[i],
        ) by {
            assert(process_current(t, listed[i]));
            assert(t.sound_process(listed[i].id));
        }
        lemma_stored_processes_merge(t, panel.processes@, listed);
        lemma_merged_processes_known(t, panel.processes@, listed);
        assert forall|id: i64| #[trigger] has_process(panel.processes@, id) implies has_process(
            after.processes@,
            id,
        ) by {
            lemma_merged_processes_hold(panel.processes@, listed, id);
        }
    }
}

/// Forgetting an item that is not stored any more keeps the panel faithful and
/// complete.
pub proof fn removal_keeps_the_panel_faithful(
    t: Tables,
    panel: PanelData,
    target: TrackedId,
    removed: Result<(), Error>,
    after: PanelData,
    r: Result<(), Error>,
)
    requires
        panel.wf(),
        faithful(t, panel),
        panel.delete_follows(target, removed, after, r),
        removed is Ok ==> match target {
            TrackedId::Agent(id) => !t.agents.contains_key(id),
            TrackedId::Process(id) => !t.processes.contains_key(id),
        },
    ensures
        faithful(t, after),
        complete(t, panel) ==> complete(t, after),
{
    match target {
        TrackedId::Agent(id) => {
            if has_agent(panel.agents@, id) {
                lemma_agent_removed(t, panel.agents@, id);
            }
        },
        TrackedId::Process(id) => {
            if has_process(panel.processes@, id) {
                lemma_process_removed(t, panel.processes@, id);
            }
        },
    }
}

/// Whether what storage reports of an item that is being focused is what is stored
/// of it.
pub open spec fn focus_answered(t: Tables, event: TargetEvent) -> bool {
    match event {
        TargetEvent::Agent { id, agent_event } => match agent_event {
            FocusEvent::Read { answer: Ok(state), .. } | FocusEvent::Written {
                answer: Ok(state),
                ..
            } => t.agents.contains_key(id) && state == t.agents[id].state(),
            _ => true,
        },
        TargetEvent::Process { id, process_event } => match process_event {
            FocusEvent::Read { answer: Ok(state), .. } | FocusEvent::Written {
                answer: Ok(state),
                ..
            } => t.processes.contains_key(id) && state == t.processes[id].state(),
            _ => true,
        },
    }
}

/// Focusing an item keeps the panel faithful and complete.
pub proof fn focus_keeps_the_panel_faithful(
    t: Tables,
    panel: PanelData,
    event: TargetEvent,
    after: PanelData,
    r: TargetStep,
)
    requires
        t.wf(),
        panel.wf(),
        panel.meets(event),
        faithful(t, panel),
        panel.focus_follows(event, after, r),
        focus_answered(t, event),
    ensures
        faithful(t, after),
        complete(t, panel) ==> complete(t, after),
{
    match event {
        TargetEvent::Agent { id, agent_event } => {
            let k = agent_slot(panel.agents@, id);
            lemma_agent_slot(panel.agents@, id);
            if has_agent(panel.agents@, id) {
                let before = panel.agents@[k];
                assert(agent_known(t, before));
                assert(t.agents.contains_key(id) ==> t.sound_agent(id));
                assert(panel.agents@.update(k, before) =~= panel.agents@);
                assert(agent_known(t, after.agents@[k]) && after.agents@[k].id == id);
                lemma_agent_replaced(t, panel.agents@, k, after.agents@[k]);
            }
        },
        TargetEvent::Process { id, process_event } => {
            let k = process_slot(panel.processes@, id);
            lemma_process_slot(panel.processes@, id);
            if has_process(panel.processes@, id) {
                let before = panel.processes@[k];
                assert(process_known(t, before));
                assert(t.processes.contains_key(id) ==> t.sound_process(id));
                assert(panel.processes@.update(k, before) =~= panel.processes@);
                assert(process_known(t, after.processes@[k]) && after.processes@[k].id == id);
                lemma_process_replaced(t, panel.processes@, k, after.processes@[k]);
            }
        },
    }
}

} // verus!
