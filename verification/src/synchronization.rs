//! What synchronizing with the tables leads to.

use vstd::prelude::*;

use crate::agent::{reachable, AgentRun, AgentStatus};
use crate::answers::{
    agent_states_in, agent_status_fault, has_agent, has_process, missing_agent, missing_process,
    process_state_fault, process_states_in,
};
use crate::error::ErrorView;
use crate::observation::{
    agent_ids_pending, agents_synced, consistent_states, consistent_states_are_taken_over,
    foreign_agent, foreign_process, plausible_statuses, plausible_statuses_are_taken_over,
    process_ids_pending, processes_synced,
};
use crate::panel::{agents_ordered, processes_ordered};
use crate::process::{ProcessRun, ProcessState};
use crate::query::{AgentStatusRow, Fetch, ProcessStateRow};
use crate::storage::Storage;
use crate::tables::{
    agent_state_rows, agent_states_of, answers_agent_states, answers_process_states,
    process_state_rows, process_states_of, tells_of_agents, tells_of_processes, went_on, Tables,
};

verus! {

proof fn lemma_agent_states_read(t: Tables, ids: Seq<i64>)
    requires
        t.wf(),
        forall|i: int| 0 <= i < ids.len() ==> t.agents.contains_key(#[trigger] ids[i]),
    ensures
        agent_states_in(agent_state_rows(t, ids)) == Ok::<Seq<(i64, AgentStatus, bool)>, ErrorView>(
            agent_states_of(t, ids),
        ),
    decreases ids.len(),
{
    let rows = agent_state_rows(t, ids);
    if ids.len() > 0 {
        let shorter = ids.drop_last();
        assert forall|i: int| 0 <= i < shorter.len() implies t.agents.contains_key(
            #[trigger] shorter[i],
        ) by {
            assert(shorter[i] == ids[i]);
        }
        lemma_agent_states_read(t, shorter);
        assert(rows.drop_last() =~= agent_state_rows(t, shorter));
        assert(t.agents.contains_key(ids[ids.len() - 1]));
        assert(t.sound_agent(ids.last()));
        assert(agent_status_fault(rows.last()) is None);
        assert(agent_states_of(t, ids) =~= agent_states_of(t, shorter).push(
            agent_states_of(t, ids).last(),
        ));
    } else {
        assert(agent_states_of(t, ids) =~= Seq::empty());
    }
}

proof fn lemma_no_agent_missing(asked: Seq<i64>, t: Tables, ids: Seq<i64>)
    requires
        forall|i: int| 0 <= i < asked.len() ==> ids.contains(#[trigger] asked[i]),
    ensures
        missing_agent(asked, agent_states_of(t, ids)) is None,
    decreases asked.len(),
{
    if asked.len() > 0 {
        let shorter = asked.drop_last();
        assert forall|i: int| 0 <= i < shorter.len() implies ids.contains(
            #[trigger] shorter[i],
        ) by {
            assert(shorter[i] == asked[i]);
        }
        lemma_no_agent_missing(shorter, t, ids);
        assert(ids.contains(asked[asked.len() - 1]));
        let k = ids.index_of(asked.last());
        assert(agent_states_of(t, ids)[k].0 == asked.last());
    }
}

/// The numbers of the agents that may have changed are those of pending ones.
pub proof fn lemma_agent_ids_pending(runs: Seq<AgentRun>, id: i64)
    ensures
        agent_ids_pending(runs).contains(id) <==> exists|k: int|
            0 <= k < runs.len() && (#[trigger] runs[k]).pending() && runs[k].id == id,
    decreases runs.len(),
{
    if runs.len() > 0 {
        let shorter = runs.drop_last();
        let last = runs.len() - 1;
        lemma_agent_ids_pending(shorter, id);
        let before = agent_ids_pending(shorter);
        let all = agent_ids_pending(runs);
        if before.contains(id) {
            let i = before.index_of(id);
            assert(all[i] == id);
            let k = choose|k: int|
                0 <= k < shorter.len() && (#[trigger] shorter[k]).pending() && shorter[k].id == id;
            assert(runs[k].pending());
        }
        if runs[last].pending() && runs[last].id == id {
            assert(all[all.len() - 1] == id);
        }
        if all.contains(id) {
            let i = all.index_of(id);
            if i < before.len() {
                assert(before[i] == id);
            } else {
                assert(runs[last].pending());
            }
        }
        if exists|k: int|
            0 <= k < runs.len() && (#[trigger] runs[k]).pending() && runs[k].id == id {
            let k = choose|k: int|
                0 <= k < runs.len() && (#[trigger] runs[k]).pending() && runs[k].id == id;
            if k < last {
                assert(shorter[k].pending());
            }
        }
    }
}

proof fn lemma_process_states_read(t: Tables, ids: Seq<i64>)
    requires
        t.wf(),
        forall|i: int| 0 <= i < ids.len() ==> t.processes.contains_key(#[trigger] ids[i]),
    ensures
        process_states_in(process_state_rows(t, ids)) == Ok::<Seq<(i64, ProcessState)>, ErrorView>(
            process_states_of(t, ids),
        ),
    decreases ids.len(),
{
    let rows = process_state_rows(t, ids);
    if ids.len() > 0 {
        let shorter = ids.drop_last();
        assert forall|i: int| 0 <= i < shorter.len() implies t.processes.contains_key(
            #[trigger] shorter[i],
        ) by {
            assert(shorter[i] == ids[i]);
        }
        lemma_process_states_read(t, shorter);
        assert(rows.drop_last() =~= process_state_rows(t, shorter));
        assert(t.processes.contains_key(ids[ids.len() - 1]));
        assert(t.sound_process(ids.last()));
        assert(process_state_fault(rows.last()) is None);
        assert(process_states_of(t, ids) =~= process_states_of(t, shorter).push(
            process_states_of(t, ids).last(),
        ));
    } else {
        assert(process_states_of(t, ids) =~= Seq::empty());
    }
}

proof fn lemma_no_process_missing(asked: Seq<i64>, t: Tables, ids: Seq<i64>)
    requires
        forall|i: int| 0 <= i < asked.len() ==> ids.contains(#[trigger] asked[i]),
    ensures
        missing_process(asked, process_states_of(t, ids)) is None,
    decreases asked.len(),
{
    if asked.len() > 0 {
        let shorter = asked.drop_last();
        assert forall|i: int| 0 <= i < shorter.len() implies ids.contains(
            #[trigger] shorter[i],
        ) by {
            assert(shorter[i] == asked[i]);
        }
        lemma_no_process_missing(shorter, t, ids);
        assert(ids.contains(asked[asked.len() - 1]));
        let k = ids.index_of(asked.last());
        assert(process_states_of(t, ids)[k].0 == asked.last());
    }
}

/// The numbers of the commands that may have changed are those of pending ones.
pub proof fn lemma_process_ids_pending(runs: Seq<ProcessRun>, id: i64)
    ensures
        process_ids_pending(runs).contains(id) <==> exists|k: int|
            0 <= k < runs.len() && (#[trigger] runs[k]).pending() && runs[k].id == id,
    decreases runs.len(),
{
    if runs.len() > 0 {
        let shorter = runs.drop_last();
        let last = runs.len() - 1;
        lemma_process_ids_pending(shorter, id);
        let before = process_ids_pending(shorter);
        let all = process_ids_pending(runs);
        if before.contains(id) {
            let i = before.index_of(id);
            assert(all[i] == id);
            let k = choose|k: int|
                0 <= k < shorter.len() && (#[trigger] shorter[k]).pending() && shorter[k].id == id;
            assert(runs[k].pending());
        }
        if runs[last].pending() && runs[last].id == id {
            assert(all[all.len() - 1] == id);
        }
        if all.contains(id) {
            let i = all.index_of(id);
            if i < before.len() {
                assert(before[i] == id);
            } else {
                assert(runs[last].pending());
            }
        }
        if exists|k: int|
            0 <= k < runs.len() && (#[trigger] runs[k]).pending() && runs[k].id == id {
            let k = choose|k: int|
                0 <= k < runs.len() && (#[trigger] runs[k]).pending() && runs[k].id == id;
            if k < last {
                assert(shorter[k].pending());
            }
        }
    }
}

/// Synchronized agents have the statuses that are stored: where the answer is
/// that of the tables about all agents that may have changed, each of them ends
/// up as it is stored.
pub proof fn synchronized_agents_match_storage(
    t: Tables,
    storage: Storage,
    runs: Seq<AgentRun>,
    ids: Seq<i64>,
    fetch: Fetch<AgentStatusRow>,
    k: int,
)
    requires
        t.wf(),
        foreign_agent(storage, runs) is None,
        ids.no_duplicates(),
        forall|id: i64| #[trigger] ids.contains(id) <==> agent_ids_pending(runs).contains(id),
        forall|i: int| 0 <= i < ids.len() ==> t.agents.contains_key(#[trigger] ids[i]),
        fetch matches Fetch::Rows { rows, failure } && rows@ == agent_state_rows(t, ids)
            && failure is None,
        plausible_statuses(runs, agent_states_of(t, ids)),
        0 <= k < runs.len(),
        runs[k].pending(),
    ensures
        agents_synced(storage, runs, fetch).1 is Ok,
        ({
            let after = agents_synced(storage, runs, fetch).0[k];
            (after.status, after.acknowledged) == t.agents[runs[k].id].state()
        }),
{
    let asked = agent_ids_pending(runs);
    let states = agent_states_of(t, ids);
    lemma_agent_ids_pending(runs, runs[k].id);
    assert(asked.len() > 0);
    lemma_agent_states_read(t, ids);
    assert forall|i: int| 0 <= i < asked.len() implies ids.contains(#[trigger] asked[i]) by {
        assert(asked.contains(asked[i]));
    }
    lemma_no_agent_missing(asked, t, ids);
    plausible_statuses_are_taken_over(runs, states);
    let i = ids.index_of(runs[k].id);
    assert(states[i].0 == runs[k].id);
}

/// Synchronized commands have the states that are stored: where the answer is
/// that of the tables about all commands that may have changed, and none of them
/// was seen further along before, each of them ends up as it is stored.
pub proof fn synchronized_processes_match_storage(
    t: Tables,
    storage: Storage,
    runs: Seq<ProcessRun>,
    ids: Seq<i64>,
    fetch: Fetch<ProcessStateRow>,
    k: int,
)
    requires
        t.wf(),
        foreign_process(storage, runs) is None,
        forall|i: int, j: int| 0 <= i < j < runs.len() ==> runs[i].id != runs[j].id,
        ids.no_duplicates(),
        forall|id: i64| #[trigger] ids.contains(id) <==> process_ids_pending(runs).contains(id),
        forall|i: int| 0 <= i < ids.len() ==> t.processes.contains_key(#[trigger] ids[i]),
        fetch matches Fetch::Rows { rows, failure } && rows@ == process_state_rows(t, ids)
            && failure is None,
        consistent_states(runs, process_states_of(t, ids)),
        0 <= k < runs.len(),
        runs[k].pending(),
        runs[k].state.rank() <= t.processes[runs[k].id].state().rank(),
    ensures
        processes_synced(storage, runs, fetch).1 is Ok,
        processes_synced(storage, runs, fetch).0[k].state == t.processes[runs[k].id].state(),
{
    let asked = process_ids_pending(runs);
    let states = process_states_of(t, ids);
    lemma_process_ids_pending(runs, runs[k].id);
    assert(asked.len() > 0);
    lemma_process_states_read(t, ids);
    assert forall|i: int| 0 <= i < asked.len() implies ids.contains(#[trigger] asked[i]) by {
        assert(asked.contains(asked[i]));
    }
    lemma_no_process_missing(asked, t, ids);
    consistent_states_are_taken_over(runs, states);
    let i = ids.index_of(runs[k].id);
    assert(states[i].0 == runs[k].id);
}

/// Whether what is stored of an agent, where it still is, can have come of what is
/// known of it.
pub open spec fn agent_known(t: Tables, run: AgentRun) -> bool {
    &&& run.id <= t.last_agent
    &&& run.acknowledged ==> run.status == AgentStatus::Done
    &&& t.agents.contains_key(run.id) ==> reachable(run.status, t.agents[run.id].state().0)
}

/// Whether what is stored of a command, where it still is, can have come of what is
/// known of it.
pub open spec fn process_known(t: Tables, run: ProcessRun) -> bool {
    &&& run.id <= t.last_process
    &&& t.processes.contains_key(run.id) ==> went_on(run.state, t.processes[run.id].state())
}

/// Whether an agent is known as it is stored.
pub open spec fn agent_current(t: Tables, run: AgentRun) -> bool {
    t.agents.contains_key(run.id) && (run.status, run.acknowledged) == t.agents[run.id].state()
}

/// Whether a command is known as it is stored.
pub open spec fn process_current(t: Tables, run: ProcessRun) -> bool {
    t.processes.contains_key(run.id) && run.state == t.processes[run.id].state()
}

proof fn lemma_none_missing_agent(asked: Seq<i64>, found: Seq<(i64, AgentStatus, bool)>, id: i64)
    requires
        missing_agent(asked, found) is None,
        asked.contains(id),
    ensures
        has_agent(found, id),
    decreases asked.len(),
{
    let i = asked.index_of(id);
    if i < asked.len() - 1 {
        assert(asked.drop_last()[i] == id);
        lemma_none_missing_agent(asked.drop_last(), found, id);
    }
}

proof fn lemma_none_missing_process(asked: Seq<i64>, found: Seq<(i64, ProcessState)>, id: i64)
    requires
        missing_process(asked, found) is None,
        asked.contains(id),
    ensures
        has_process(found, id),
    decreases asked.len(),
{
    let i = asked.index_of(id);
    if i < asked.len() - 1 {
        assert(asked.drop_last()[i] == id);
        lemma_none_missing_process(asked.drop_last(), found, id);
    }
}

/// Where agents are synchronized with an answer of the tables, those that may have
/// changed are as they are stored afterwards, and the others as they were.
pub proof fn answered_agents_are_current(
    t: Tables,
    storage: Storage,
    runs: Seq<AgentRun>,
    fetch: Fetch<AgentStatusRow>,
)
    requires
        t.wf(),
        agents_ordered(runs),
        forall|k: int| 0 <= k < runs.len() ==> agent_known(t, #[trigger] runs[k]),
        agent_ids_pending(runs).len() > 0,
        answers_agent_states(t, agent_ids_pending(runs), fetch),
        agents_synced(storage, runs, fetch).1 is Ok,
    ensures
        ({
            let after = agents_synced(storage, runs, fetch).0;
            &&& after.len() == runs.len()
            &&& forall|k: int|
                0 <= k < runs.len() ==> (#[trigger] after[k]).id == runs[k].id && agent_known(
                    t,
                    after[k],
                )
            &&& forall|k: int|
                0 <= k < runs.len() ==> if runs[k].pending() {
                    agent_current(t, #[trigger] after[k])
                } else {
                    after[k] == runs[k]
                }
        }),
{
    let asked = agent_ids_pending(runs);
    let after = agents_synced(storage, runs, fetch).0;
    let rows = fetch->rows@;
    assert(fetch is Rows && fetch->failure is None);
    let found = choose|found: Seq<i64>| #[trigger] tells_of_agents(t, asked, rows, found);
    assert forall|i: int| 0 <= i < found.len() implies t.agents.contains_key(
        #[trigger] found[i],
    ) by {
        assert(found.contains(found[i]));
    }
    lemma_agent_states_read(t, found);
    let states = agent_states_of(t, found);
    assert(states.len() == found.len());
    assert forall|i: int, k: int|
        0 <= i < states.len() && 0 <= k < runs.len() && (#[trigger] runs[k]).id == (
        #[trigger] states[i]).0 implies runs[k].plausible(states[i].1, states[i].2) by {
        assert(agent_known(t, runs[k]));
        assert(t.agents.contains_key(found[i]));
        assert(t.sound_agent(found[i]));
    }
    plausible_statuses_are_taken_over(runs, states);
    assert forall|k: int| 0 <= k < runs.len() implies (#[trigger] after[k]).id == runs[k].id
        && agent_known(t, after[k]) && (if runs[k].pending() {
        agent_current(t, after[k])
    } else {
        after[k] == runs[k]
    }) by {
        let id = runs[k].id;
        assert(agent_known(t, runs[k]));
        lemma_agent_ids_pending(runs, id);
        if runs[k].pending() {
            assert(asked.contains(id));
            lemma_none_missing_agent(asked, states, id);
            let i = choose|i: int| 0 <= i < states.len() && (#[trigger] states[i]).0 == id;
            assert(found[i] == id);
            assert(t.sound_agent(id));
        } else {
            if has_agent(states, id) {
                let i = choose|i: int| 0 <= i < states.len() && (#[trigger] states[i]).0 == id;
                assert(found.contains(found[i]));
                let j = choose|j: int|
                    0 <= j < runs.len() && (#[trigger] runs[j]).pending() && runs[j].id == id;
            }
        }
    }
}

/// Where commands are synchronized with an answer of the tables, those that may have
/// changed are as they are stored afterwards, and the others as they were.
pub proof fn answered_processes_are_current(
    t: Tables,
    storage: Storage,
    runs: Seq<ProcessRun>,
    fetch: Fetch<ProcessStateRow>,
)
    requires
        t.wf(),
        processes_ordered(runs),
        forall|k: int| 0 <= k < runs.len() ==> process_known(t, #[trigger] runs[k]),
        process_ids_pending(runs).len() > 0,
        answers_process_states(t, process_ids_pending(runs), fetch),
        processes_synced(storage, runs, fetch).1 is Ok,
    ensures
        ({
            let after = processes_synced(storage, runs, fetch).0;
            &&& after.len() == runs.len()
            &&& forall|k: int|
                0 <= k < runs.len() ==> (#[trigger] after[k]).id == runs[k].id && process_known(
                    t,
                    after[k],
                )
            &&& forall|k: int|
                0 <= k < runs.len() ==> if runs[k].pending() {
                    process_current(t, #[trigger] after[k])
                } else {
                    after[k] == runs[k]
                }
        }),
{
    let asked = process_ids_pending(runs);
    let after = processes_synced(storage, runs, fetch).0;
    let rows = fetch->rows@;
    assert(fetch is Rows && fetch->failure is None);
    let found = choose|found: Seq<i64>| #[trigger] tells_of_processes(t, asked, rows, found);
    assert forall|i: int| 0 <= i < found.len() implies t.processes.contains_key(
        #[trigger] found[i],
    ) by {
        assert(found.contains(found[i]));
    }
    lemma_process_states_read(t, found);
    let states = process_states_of(t, found);
    assert(states.len() == found.len());
    assert forall|i: int, k: int|
        0 <= i < states.len() && 0 <= k < runs.len() && (#[trigger] runs[k]).id == (
        #[trigger] states[i]).0 implies !runs[k].state.conflicts(states[i].1) by {
        assert(process_known(t, runs[k]));
        assert(t.processes.contains_key(found[i]));
        assert(t.sound_process(found[i]));
    }
    consistent_states_are_taken_over(runs, states);
    assert forall|k: int| 0 <= k < runs.len() implies (#[trigger] after[k]).id == runs[k].id
        && process_known(t, after[k]) && (if runs[k].pending() {
        process_current(t, after[k])
    } else {
        after[k] == runs[k]
    }) by {
        let id = runs[k].id;
        assert(process_known(t, runs[k]));
        lemma_process_ids_pending(runs, id);
        if runs[k].pending() {
            assert(asked.contains(id));
            lemma_none_missing_process(asked, states, id);
            let i = choose|i: int| 0 <= i < states.len() && (#[trigger] states[i]).0 == id;
            assert(found[i] == id);
            assert(t.sound_process(id));
        } else {
            if has_process(states, id) {
                let i = choose|i: int| 0 <= i < states.len() && (#[trigger] states[i]).0 == id;
                assert(found.contains(found[i]));
                let j = choose|j: int|
                    0 <= j < runs.len() && (#[trigger] runs[j]).pending() && runs[j].id == id;
            }
        }
    }
}

} // verus!
