//! What a collection of old items does to the tables.

use vstd::prelude::*;

use crate::effects::{
    effect, jobs_change_only_their_item, jobs_keep_tables_sound, jobs_leave_no_orphans,
};
use crate::schema::{
    agent_removals, collection_of, process_removals, Collection, COLLECT_BATCH,
};
use crate::storage::{Job, Storage};
use crate::tables::{
    agent_row, answers_collectible_agents, answers_collectible_processes, collectible_agents,
    collectible_processes, end_of, older, process_row, Tables,
};
use crate::time::Timestamp;

verus! {

/// The tables once several jobs have been carried out one behind the other.
pub open spec fn all_effects(t: Tables, storage: Storage, jobs: Seq<Job>, now: Timestamp) -> Tables
    decreases jobs.len(),
{
    if jobs.len() == 0 {
        t
    } else {
        effect(all_effects(t, storage, jobs.drop_last(), now), storage, jobs.last(), now).0
    }
}

/// A collection removes the items that it was given, and keeps all others as
/// they are.
pub proof fn collection_keeps_the_rest(
    t: Tables,
    storage: Storage,
    processes: Seq<i64>,
    agents: Seq<i64>,
    now: Timestamp,
)
    requires
        t.wf(),
    ensures
        ({
            let after = all_effects(
                t,
                storage,
                process_removals(processes) + agent_removals(agents),
                now,
            );
            &&& after.wf()
            &&& forall|id: i64|
                #![trigger after.processes.contains_key(id)]
                #![trigger t.processes.contains_key(id)]
                after.processes.contains_key(id) <==> t.processes.contains_key(id)
                    && !processes.contains(id)
            &&& forall|id: i64| #[trigger]
                after.processes.contains_key(id) ==> process_row(after, id) == process_row(t, id)
            &&& forall|id: i64|
                #![trigger after.agents.contains_key(id)]
                #![trigger t.agents.contains_key(id)]
                after.agents.contains_key(id) <==> t.agents.contains_key(id) && !agents.contains(id)
            &&& forall|id: i64| #[trigger]
                after.agents.contains_key(id) ==> agent_row(after, id) == agent_row(t, id)
        }),
    decreases processes.len() + agents.len(),
{
    let jobs = process_removals(processes) + agent_removals(agents);
    if agents.len() > 0 {
        let shorter = agents.drop_last();
        assert(jobs.drop_last() =~= process_removals(processes) + agent_removals(shorter));
        collection_keeps_the_rest(t, storage, processes, shorter, now);
        let before = all_effects(t, storage, jobs.drop_last(), now);
        lemma_removed(before, storage, jobs.last(), now);
        assert(agents =~= shorter.push(agents.last()));
        assert forall|id: i64| agents.contains(id) <==> shorter.contains(id) || id
            == agents.last() by {
            if shorter.contains(id) {
                let i = shorter.index_of(id);
                assert(agents[i] == id);
            }
            assert(agents[agents.len() - 1] == agents.last());
        }
    } else if processes.len() > 0 {
        let shorter = processes.drop_last();
        assert(jobs.drop_last() =~= process_removals(shorter) + agent_removals(agents));
        collection_keeps_the_rest(t, storage, shorter, agents, now);
        let before = all_effects(t, storage, jobs.drop_last(), now);
        lemma_removed(before, storage, jobs.last(), now);
        assert(processes =~= shorter.push(processes.last()));
        assert forall|id: i64| processes.contains(id) <==> shorter.contains(id) || id
            == processes.last() by {
            if shorter.contains(id) {
                let i = shorter.index_of(id);
                assert(processes[i] == id);
            }
            assert(processes[processes.len() - 1] == processes.last());
        }
    } else {
        assert(jobs =~= Seq::empty());
    }
}

/// What the removal of one item keeps.
proof fn lemma_removed(t: Tables, storage: Storage, job: Job, now: Timestamp)
    requires
        t.wf(),
        job is DeleteProcess || job is DeleteAgent,
    ensures
        ({
            let after = effect(t, storage, job, now).0;
            &&& after.wf()
            &&& forall|id: i64| #[trigger]
                after.processes.contains_key(id) <==> t.processes.contains_key(id) && job
                    != (Job::DeleteProcess { id })
            &&& forall|id: i64| #[trigger]
                after.processes.contains_key(id) ==> process_row(after, id) == process_row(t, id)
            &&& forall|id: i64| #[trigger]
                after.agents.contains_key(id) <==> t.agents.contains_key(id) && job
                    != (Job::DeleteAgent { id })
            &&& forall|id: i64| #[trigger]
                after.agents.contains_key(id) ==> agent_row(after, id) == agent_row(t, id)
        }),
{
    jobs_keep_tables_sound(t, storage, job, now);
    jobs_change_only_their_item(t, storage, job, now);
    let after = effect(t, storage, job, now).0;
    assert forall|id: i64| #[trigger] after.processes.contains_key(id) implies process_row(
        after,
        id,
    ) == process_row(t, id) by {
        assert(t.processes.contains_key(id));
    }
    assert forall|id: i64| #[trigger] after.agents.contains_key(id) implies agent_row(after, id)
        == agent_row(t, id) by {
        assert(t.agents.contains_key(id));
    }
}

/// Removing items leaves only hosts that some item refers to.
proof fn lemma_removals_leave_no_orphans(
    t: Tables,
    storage: Storage,
    jobs: Seq<Job>,
    now: Timestamp,
)
    requires
        t.wf(),
        t.no_orphans(),
        forall|i: int|
            0 <= i < jobs.len() ==> (#[trigger] jobs[i]) is DeleteProcess || jobs[i] is DeleteAgent,
    ensures
        all_effects(t, storage, jobs, now).wf(),
        all_effects(t, storage, jobs, now).no_orphans(),
    decreases jobs.len(),
{
    if jobs.len() > 0 {
        let shorter = jobs.drop_last();
        assert forall|i: int| 0 <= i < shorter.len() implies (
        #[trigger] shorter[i]) is DeleteProcess || shorter[i] is DeleteAgent by {
            assert(shorter[i] == jobs[i]);
        }
        lemma_removals_leave_no_orphans(t, storage, shorter, now);
        let before = all_effects(t, storage, shorter, now);
        assert(jobs[jobs.len() - 1] is DeleteProcess || jobs[jobs.len() - 1] is DeleteAgent);
        jobs_keep_tables_sound(before, storage, jobs.last(), now);
        jobs_leave_no_orphans(before, storage, jobs.last(), now);
    }
}

/// Where more commands may be collected than at a time, that many are, and all that
/// are left are younger.
proof fn lemma_oldest_processes(t: Tables, ids: Seq<i64>)
    requires
        t.wf(),
        answers_collectible_processes(t, ids),
        collectible_processes(t).len() > COLLECT_BATCH,
    ensures
        ids.len() == COLLECT_BATCH,
        ids.no_duplicates(),
        forall|i: int, id: i64|
            0 <= i < ids.len() && #[trigger] collectible_processes(t).contains(id) && !ids.contains(
                id,
            ) ==> older(
                end_of(t.processes[ids[i]]),
                #[trigger] ids[i],
                end_of(t.processes[id]),
                id,
            ),
{
    if ids.len() < COLLECT_BATCH {
        assert(collectible_processes(t).subset_of(ids.to_set()));
        ids.lemma_cardinality_of_set();
        vstd::set_lib::lemma_len_subset(collectible_processes(t), ids.to_set());
    }
    assert forall|i: int, id: i64|
        0 <= i < ids.len() && #[trigger] collectible_processes(t).contains(id) && !ids.contains(
            id,
        ) implies older(
        end_of(t.processes[ids[i]]),
        #[trigger] ids[i],
        end_of(t.processes[id]),
        id,
    ) by {
        let last = ids.len() - 1;
        assert(ids[last] == ids.last());
        if i < last {
            assert(older(
                end_of(t.processes[ids[i]]),
                ids[i],
                end_of(t.processes[ids[last]]),
                ids[last],
            ));
        }
    }
}

/// Where more agents may be collected than at a time, that many are, and all that
/// are left are younger.
proof fn lemma_oldest_agents(t: Tables, ids: Seq<i64>)
    requires
        t.wf(),
        answers_collectible_agents(t, ids),
        collectible_agents(t).len() > COLLECT_BATCH,
    ensures
        ids.len() == COLLECT_BATCH,
        ids.no_duplicates(),
        forall|i: int, id: i64|
            0 <= i < ids.len() && #[trigger] collectible_agents(t).contains(id) && !ids.contains(
                id,
            ) ==> older(
                t.agents[ids[i]].started_at as int,
                #[trigger] ids[i],
                t.agents[id].started_at as int,
                id,
            ),
{
    if ids.len() < COLLECT_BATCH {
        assert(collectible_agents(t).subset_of(ids.to_set()));
        ids.lemma_cardinality_of_set();
        vstd::set_lib::lemma_len_subset(collectible_agents(t), ids.to_set());
    }
    assert forall|i: int, id: i64|
        0 <= i < ids.len() && #[trigger] collectible_agents(t).contains(id) && !ids.contains(
            id,
        ) implies older(
        t.agents[ids[i]].started_at as int,
        #[trigger] ids[i],
        t.agents[id].started_at as int,
        id,
    ) by {
        let last = ids.len() - 1;
        assert(ids[last] == ids.last());
        if i < last {
            assert(older(
                t.agents[ids[i]].started_at as int,
                ids[i],
                t.agents[ids[last]].started_at as int,
                ids[last],
            ));
        }
    }
}

/// A collection takes from each table that holds too many collectible items the
/// oldest ones, as many as are collected at a time, and nothing else: commands
/// that are not acknowledged and agents that are not killed stay as they are, and
/// so does a table below the threshold. Hosts go with the last item that was
/// started in them.
pub proof fn collection_takes_the_oldest(
    t: Tables,
    storage: Storage,
    version: i64,
    process_count: i64,
    agent_count: i64,
    collection: Collection,
    processes: Seq<i64>,
    agents: Seq<i64>,
    now: Timestamp,
)
    requires
        t.wf(),
        process_count == collectible_processes(t).len(),
        agent_count == collectible_agents(t).len(),
        collection_of(version, process_count, agent_count) == Some(collection),
        answers_collectible_processes(t, processes),
        answers_collectible_agents(t, agents),
    ensures
        ({
            let after = all_effects(
                t,
                storage,
                process_removals(
                    if collection.processes {
                        processes
                    } else {
                        Seq::empty()
                    },
                ) + agent_removals(
                    if collection.agents {
                        agents
                    } else {
                        Seq::empty()
                    },
                ),
                now,
            );
            &&& after.wf()
            &&& t.no_orphans() ==> after.no_orphans()
            &&& forall|id: i64| #[trigger]
                t.processes.contains_key(id) && (t.processes[id].acked != 1
                    || !collection.processes) ==> after.processes.contains_key(id) && process_row(
                    after,
                    id,
                ) == process_row(t, id)
            &&& forall|id: i64| #[trigger]
                t.agents.contains_key(id) && (t.agents[id].status != 5 || !collection.agents)
                    ==> after.agents.contains_key(id) && agent_row(after, id) == agent_row(t, id)
            &&& collection.processes ==> {
                &&& processes.len() == COLLECT_BATCH
                &&& processes.no_duplicates()
                &&& forall|i: int|
                    0 <= i < processes.len() ==> !after.processes.contains_key(
                        #[trigger] processes[i],
                    )
                &&& forall|i: int, id: i64|
                    0 <= i < processes.len() && #[trigger] after.processes.contains_key(id)
                        && t.processes[id].acked == 1 ==> older(
                        end_of(t.processes[processes[i]]),
                        #[trigger] processes[i],
                        end_of(t.processes[id]),
                        id,
                    )
            }
            &&& collection.agents ==> {
                &&& agents.len() == COLLECT_BATCH
                &&& agents.no_duplicates()
                &&& forall|i: int|
                    0 <= i < agents.len() ==> !after.agents.contains_key(#[trigger] agents[i])
                &&& forall|i: int, id: i64|
                    0 <= i < agents.len() && #[trigger] after.agents.contains_key(id)
                        && t.agents[id].status == 5 ==> older(
                        t.agents[agents[i]].started_at as int,
                        #[trigger] agents[i],
                        t.agents[id].started_at as int,
                        id,
                    )
            }
        }),
{
    let gone_processes = if collection.processes {
        processes
    } else {
        Seq::empty()
    };
    let gone_agents = if collection.agents {
        agents
    } else {
        Seq::empty()
    };
    let jobs = process_removals(gone_processes) + agent_removals(gone_agents);
    let after = all_effects(t, storage, jobs, now);
    collection_keeps_the_rest(t, storage, gone_processes, gone_agents, now);
    if t.no_orphans() {
        lemma_removals_leave_no_orphans(t, storage, jobs, now);
    }
    assert forall|id: i64| #[trigger]
        t.processes.contains_key(id) && (t.processes[id].acked != 1
            || !collection.processes) implies after.processes.contains_key(id) && process_row(
        after,
        id,
    ) == process_row(t, id) by {
        if gone_processes.contains(id) {
            let i = processes.index_of(id);
            assert(collectible_processes(t).contains(processes[i]));
        }
        assert(after.processes.contains_key(id));
    }
    assert forall|id: i64| #[trigger]
        t.agents.contains_key(id) && (t.agents[id].status != 5
            || !collection.agents) implies after.agents.contains_key(id) && agent_row(after, id)
        == agent_row(t, id) by {
        if gone_agents.contains(id) {
            let i = agents.index_of(id);
            assert(collectible_agents(t).contains(agents[i]));
        }
        assert(after.agents.contains_key(id));
    }
    if collection.processes {
        lemma_oldest_processes(t, processes);
        assert forall|i: int| 0 <= i < processes.len() implies !after.processes.contains_key(
            #[trigger] processes[i],
        ) by {
            assert(gone_processes.contains(processes[i]));
        }
        assert forall|i: int, id: i64|
            0 <= i < processes.len() && #[trigger] after.processes.contains_key(id)
                && t.processes[id].acked == 1 implies older(
            end_of(t.processes[processes[i]]),
            #[trigger] processes[i],
            end_of(t.processes[id]),
            id,
        ) by {
            assert(t.processes.contains_key(id) && !processes.contains(id));
            assert(collectible_processes(t).contains(id));
        }
    }
    if collection.agents {
        lemma_oldest_agents(t, agents);
        assert forall|i: int| 0 <= i < agents.len() implies !after.agents.contains_key(
            #[trigger] agents[i],
        ) by {
            assert(gone_agents.contains(agents[i]));
        }
        assert forall|i: int, id: i64|
            0 <= i < agents.len() && #[trigger] after.agents.contains_key(id)
                && t.agents[id].status == 5 implies older(
            t.agents[agents[i]].started_at as int,
            #[trigger] agents[i],
            t.agents[id].started_at as int,
            id,
        ) by {
            assert(t.agents.contains_key(id) && !agents.contains(id));
            assert(collectible_agents(t).contains(id));
        }
    }
}

} // verus!
