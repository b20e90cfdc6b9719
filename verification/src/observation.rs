//! What observed states make of tracked items.

use vstd::prelude::*;

use crate::agent::{acknowledged_text, unreachable_text, AgentRun, AgentStatus};
use crate::answers::{agent_states_answered, has_agent, has_process, process_states_answered};
use crate::error::{plain, Error, ErrorView};
use crate::process::{inconsistent_text, ProcessRun, ProcessState};
use crate::query::{AgentStatusRow, Fetch, ProcessStateRow};
use crate::storage::Storage;

verus! {

/// The first command that is not from a storage.
pub open spec fn foreign_process(storage: Storage, runs: Seq<ProcessRun>) -> Option<i64>
    decreases runs.len(),
{
    if runs.len() == 0 {
        None
    } else {
        let before = foreign_process(storage, runs.drop_last());
        if before is Some {
            before
        } else if runs.last().storage.same(storage) {
            None
        } else {
            Some(runs.last().id)
        }
    }
}

/// Once a command is not from the storage, the commands behind it do not matter.
pub proof fn lemma_foreign_process(storage: Storage, runs: Seq<ProcessRun>, n: int)
    requires
        0 <= n <= runs.len(),
        foreign_process(storage, runs.take(n)) is Some,
    ensures
        foreign_process(storage, runs) == foreign_process(storage, runs.take(n)),
    decreases runs.len() - n,
{
    if n < runs.len() {
        assert(runs.take(n + 1).drop_last() =~= runs.take(n));
        lemma_foreign_process(storage, runs, n + 1);
    } else {
        assert(runs.take(n) =~= runs);
    }
}

/// The numbers of the commands that may have changed.
pub open spec fn process_ids_pending(runs: Seq<ProcessRun>) -> Seq<i64>
    decreases runs.len(),
{
    if runs.len() == 0 {
        Seq::empty()
    } else if runs.last().pending() {
        process_ids_pending(runs.drop_last()).push(runs.last().id)
    } else {
        process_ids_pending(runs.drop_last())
    }
}

/// The numbers of the commands that may have changed, or the first command that is
/// not from the storage.
pub open spec fn pending_processes(storage: Storage, runs: Seq<ProcessRun>) -> Result<
    Seq<i64>,
    ErrorView,
> {
    match foreign_process(storage, runs) {
        Some(id) => Err(ErrorView::WrongStorage(id)),
        None => Ok(process_ids_pending(runs)),
    }
}

/// The first agent that is not from a storage.
pub open spec fn foreign_agent(storage: Storage, runs: Seq<AgentRun>) -> Option<i64>
    decreases runs.len(),
{
    if runs.len() == 0 {
        None
    } else {
        let before = foreign_agent(storage, runs.drop_last());
        if before is Some {
            before
        } else if runs.last().storage.same(storage) {
            None
        } else {
            Some(runs.last().id)
        }
    }
}

/// Once an agent is not from the storage, the agents behind it do not matter.
pub proof fn lemma_foreign_agent(storage: Storage, runs: Seq<AgentRun>, n: int)
    requires
        0 <= n <= runs.len(),
        foreign_agent(storage, runs.take(n)) is Some,
    ensures
        foreign_agent(storage, runs) == foreign_agent(storage, runs.take(n)),
    decreases runs.len() - n,
{
    if n < runs.len() {
        assert(runs.take(n + 1).drop_last() =~= runs.take(n));
        lemma_foreign_agent(storage, runs, n + 1);
    } else {
        assert(runs.take(n) =~= runs);
    }
}

/// The numbers of the agents that may have changed.
pub open spec fn agent_ids_pending(runs: Seq<AgentRun>) -> Seq<i64>
    decreases runs.len(),
{
    if runs.len() == 0 {
        Seq::empty()
    } else if runs.last().pending() {
        agent_ids_pending(runs.drop_last()).push(runs.last().id)
    } else {
        agent_ids_pending(runs.drop_last())
    }
}

/// The numbers of the agents that may have changed, or the first agent that is
/// not from the storage.
pub open spec fn pending_agents(storage: Storage, runs: Seq<AgentRun>) -> Result<
    Seq<i64>,
    ErrorView,
> {
    match foreign_agent(storage, runs) {
        Some(id) => Err(ErrorView::AgentWrongStorage(id)),
        None => Ok(agent_ids_pending(runs)),
    }
}

/// The place of the first command with a number; behind the end where there is
/// none.
pub open spec fn place_of(runs: Seq<ProcessRun>, id: i64) -> int
    decreases runs.len(),
{
    if runs.len() == 0 {
        0
    } else if place_of(runs.drop_last(), id) < runs.len() - 1 {
        place_of(runs.drop_last(), id)
    } else if runs.last().id == id {
        runs.len() - 1
    } else {
        runs.len() as int
    }
}

/// The commands once the first with a number has been observed in a state.
pub open spec fn observed_process(runs: Seq<ProcessRun>, id: i64, state: ProcessState) -> Seq<
    ProcessRun,
> {
    let place = place_of(runs, id);
    if place < runs.len() {
        runs.update(place, runs[place].observed(state))
    } else {
        runs
    }
}

/// Whether a state contradicts what is known of the first command with a number.
pub open spec fn contradicts(runs: Seq<ProcessRun>, id: i64, state: ProcessState) -> bool {
    let place = place_of(runs, id);
    place < runs.len() && runs[place].state.conflicts(state)
}

/// The commands once the given states have been observed, up to the first
/// contradiction.
pub open spec fn observed_processes(
    runs: Seq<ProcessRun>,
    states: Seq<(i64, ProcessState)>,
) -> (Seq<ProcessRun>, Result<(), ErrorView>)
    decreases states.len(),
{
    if states.len() == 0 {
        (runs, Ok(()))
    } else {
        let (before, r) = observed_processes(runs, states.drop_last());
        let (id, state) = states.last();
        if r is Err {
            (before, r)
        } else if contradicts(before, id, state) {
            (before, Err(ErrorView::CorruptData(inconsistent_text(id))))
        } else {
            (observed_process(before, id, state), Ok(()))
        }
    }
}

pub(crate) proof fn lemma_place_of(runs: Seq<ProcessRun>, id: i64, place: int)
    requires
        0 <= place <= runs.len(),
        forall|j: int| 0 <= j < place ==> (#[trigger] runs[j]).id != id,
        place < runs.len() ==> runs[place].id == id,
    ensures
        place_of(runs, id) == place,
    decreases runs.len(),
{
    if runs.len() > 0 {
        if place < runs.len() - 1 {
            lemma_place_of(runs.drop_last(), id, place);
        } else {
            lemma_place_of(runs.drop_last(), id, runs.len() - 1);
        }
    }
}

proof fn lemma_observed_processes_error(
    runs: Seq<ProcessRun>,
    states: Seq<(i64, ProcessState)>,
    n: int,
)
    requires
        0 <= n <= states.len(),
        observed_processes(runs, states.take(n)).1 is Err,
    ensures
        observed_processes(runs, states) == observed_processes(runs, states.take(n)),
    decreases states.len() - n,
{
    if n < states.len() {
        assert(states.take(n + 1).drop_last() =~= states.take(n));
        lemma_observed_processes_error(runs, states, n + 1);
    } else {
        assert(states.take(n) =~= states);
    }
}

/// Takes over states, each into the first command with its number.
pub(crate) fn observe_processes(processes: &mut Vec<ProcessRun>, states: &Vec<(i64, ProcessState)>) -> (r:
    Result<(), Error>)
    ensures
        (final(processes)@, plain(r)) == observed_processes(old(processes)@, states@),
{
    let ghost runs = processes@;
    let mut i: usize = 0;
    while i < states.len()
        invariant
            i <= states.len(),
            runs == old(processes)@,
            observed_processes(runs, states@.take(i as int)) == (
                processes@,
                Ok::<(), ErrorView>(()),
            ),
        decreases states.len() - i,
    {
        assert(states@.take(i + 1).drop_last() =~= states@.take(i as int));
        let (id, state) = states[i];
        let ghost before = processes@;
        let mut place: usize = 0;
        while place < processes.len() && processes[place].id() != id
            invariant
                place <= processes.len(),
                processes@ == before,
                forall|j: int| 0 <= j < place ==> (#[trigger] before[j]).id != id,
            decreases processes.len() - place,
        {
            place = place + 1;
        }
        proof {
            lemma_place_of(before, id, place as int);
        }
        if place < processes.len() {
            let seen: Result<(), Error> = processes[place].observe(state);
            match seen {
                Err(error) => {
                    proof {
                        lemma_observed_processes_error(runs, states@, i + 1);
                        assert(processes@ =~= before);
                    }
                    return Err(error);
                },
                Ok(()) => {},
            }
        }
        assert(processes@ =~= observed_process(before, id, state));
        i = i + 1;
    }
    assert(states@.take(states@.len() as int) =~= states@);
    Ok(())
}

/// What synchronizing commands with an answer makes of them, and says.
pub open spec fn processes_synced(
    storage: Storage,
    runs: Seq<ProcessRun>,
    fetch: Fetch<ProcessStateRow>,
) -> (Seq<ProcessRun>, Result<(), ErrorView>) {
    match pending_processes(storage, runs) {
        Err(error) => (runs, Err(error)),
        Ok(ids) => if ids.len() == 0 {
            (runs, Ok(()))
        } else {
            match process_states_answered(ids, fetch) {
                Err(error) => (runs, Err(error)),
                Ok(states) => observed_processes(runs, states),
            }
        },
    }
}

/// The agents once each with a number has been observed in a status, up to the
/// first that cannot be in it.
pub open spec fn observed_agent(
    runs: Seq<AgentRun>,
    id: i64,
    status: AgentStatus,
    acknowledged: bool,
) -> (Seq<AgentRun>, Result<(), ErrorView>)
    decreases runs.len(),
{
    if runs.len() == 0 {
        (runs, Ok(()))
    } else {
        let (before, r) = observed_agent(runs.drop_last(), id, status, acknowledged);
        let run = runs.last();
        if r is Err || run.id != id {
            (before.push(run), r)
        } else {
            (
                before.push(run.observed(status, acknowledged)),
                if run.plausible(status, acknowledged) {
                    Ok(())
                } else {
                    Err(implausible_error(run, status, acknowledged))
                },
            )
        }
    }
}

/// The error that an implausible observation leads to.
pub open spec fn implausible_error(
    run: AgentRun,
    status: AgentStatus,
    acknowledged: bool,
) -> ErrorView {
    if acknowledged && status != AgentStatus::Done {
        ErrorView::CorruptData(acknowledged_text(run.id))
    } else {
        ErrorView::CorruptData(unreachable_text(run.id, run.status, status))
    }
}

/// The agents once the given statuses have been observed, up to the first error.
pub open spec fn observed_agents(
    runs: Seq<AgentRun>,
    states: Seq<(i64, AgentStatus, bool)>,
) -> (Seq<AgentRun>, Result<(), ErrorView>)
    decreases states.len(),
{
    if states.len() == 0 {
        (runs, Ok(()))
    } else {
        let (before, r) = observed_agents(runs, states.drop_last());
        let (id, status, acknowledged) = states.last();
        if r is Err {
            (before, r)
        } else {
            observed_agent(before, id, status, acknowledged)
        }
    }
}

/// Behind the first error nothing changes any more.
proof fn lemma_observed_agent_error(
    runs: Seq<AgentRun>,
    id: i64,
    status: AgentStatus,
    acknowledged: bool,
    n: int,
)
    requires
        0 <= n <= runs.len(),
        observed_agent(runs.take(n), id, status, acknowledged).1 is Err,
    ensures
        observed_agent(runs, id, status, acknowledged) == (
            observed_agent(runs.take(n), id, status, acknowledged).0 + runs.skip(n),
            observed_agent(runs.take(n), id, status, acknowledged).1,
        ),
    decreases runs.len() - n,
{
    let known = observed_agent(runs.take(n), id, status, acknowledged).0;
    if n < runs.len() {
        assert(runs.take(n + 1).drop_last() =~= runs.take(n));
        lemma_observed_agent_error(runs, id, status, acknowledged, n + 1);
        assert(known.push(runs[n]) + runs.skip(n + 1) =~= known + runs.skip(n));
    } else {
        assert(runs.take(n) =~= runs);
        assert(known + runs.skip(n) =~= known);
    }
}

proof fn lemma_observed_agents_error(
    runs: Seq<AgentRun>,
    states: Seq<(i64, AgentStatus, bool)>,
    n: int,
)
    requires
        0 <= n <= states.len(),
        observed_agents(runs, states.take(n)).1 is Err,
    ensures
        observed_agents(runs, states) == observed_agents(runs, states.take(n)),
    decreases states.len() - n,
{
    if n < states.len() {
        assert(states.take(n + 1).drop_last() =~= states.take(n));
        lemma_observed_agents_error(runs, states, n + 1);
    } else {
        assert(states.take(n) =~= states);
    }
}

/// Takes over a status into each agent with a number.
fn observe_agent(agents: &mut Vec<AgentRun>, id: i64, status: AgentStatus, acknowledged: bool) -> (r:
    Result<(), Error>)
    ensures
        (final(agents)@, plain(r)) == observed_agent(old(agents)@, id, status, acknowledged),
{
    let ghost runs = agents@;
    let mut i: usize = 0;
    proof {
        assert(runs.skip(0) =~= runs);
        assert(Seq::<AgentRun>::empty() + runs =~= runs);
        assert(runs.take(0) =~= Seq::<AgentRun>::empty());
    }
    while i < agents.len()
        invariant
            i <= agents.len(),
            runs == old(agents)@,
            agents.len() == runs.len(),
            observed_agent(runs.take(i as int), id, status, acknowledged).1 == Ok::<(), ErrorView>(
                (),
            ),
            observed_agent(runs.take(i as int), id, status, acknowledged).0.len() == i,
            agents@ == observed_agent(runs.take(i as int), id, status, acknowledged).0 + runs.skip(
                i as int,
            ),
        decreases agents.len() - i,
    {
        let ghost known = observed_agent(runs.take(i as int), id, status, acknowledged).0;
        let ghost current = agents@;
        proof {
            assert(runs.take(i + 1).drop_last() =~= runs.take(i as int));
            assert(current[i as int] == runs[i as int]);
        }
        if agents[i].id() == id {
            let seen: Result<(), Error> = agents[i].observe(status, acknowledged);
            assert(agents@ =~= known.push(runs[i as int].observed(status, acknowledged))
                + runs.skip(i + 1));
            match seen {
                Err(error) => {
                    proof {
                        lemma_observed_agent_error(runs, id, status, acknowledged, i + 1);
                        assert(error@ == implausible_error(runs[i as int], status, acknowledged));
                    }
                    return Err(error);
                },
                Ok(()) => {},
            }
        } else {
            assert(agents@ =~= known.push(runs[i as int]) + runs.skip(i + 1));
        }
        i = i + 1;
    }
    proof {
        assert(runs.take(runs.len() as int) =~= runs);
        assert(agents@ =~= observed_agent(runs, id, status, acknowledged).0);
    }
    Ok(())
}

/// Takes over statuses, each into the agents with its number.
pub(crate) fn observe_agents(agents: &mut Vec<AgentRun>, states: &Vec<(i64, AgentStatus, bool)>) -> (r: Result<
    (),
    Error,
>)
    ensures
        (final(agents)@, plain(r)) == observed_agents(old(agents)@, states@),
{
    let ghost runs = agents@;
    let mut i: usize = 0;
    while i < states.len()
        invariant
            i <= states.len(),
            runs == old(agents)@,
            observed_agents(runs, states@.take(i as int)) == (agents@, Ok::<(), ErrorView>(())),
        decreases states.len() - i,
    {
        assert(states@.take(i + 1).drop_last() =~= states@.take(i as int));
        let (id, status, acknowledged) = states[i];
        match observe_agent(agents, id, status, acknowledged) {
            Err(error) => {
                proof {
                    lemma_observed_agents_error(runs, states@, i + 1);
                }
                return Err(error);
            },
            Ok(()) => {},
        }
        i = i + 1;
    }
    assert(states@.take(states@.len() as int) =~= states@);
    Ok(())
}

/// What synchronizing agents with an answer makes of them, and says.
pub open spec fn agents_synced(
    storage: Storage,
    runs: Seq<AgentRun>,
    fetch: Fetch<AgentStatusRow>,
) -> (Seq<AgentRun>, Result<(), ErrorView>) {
    match pending_agents(storage, runs) {
        Err(error) => (runs, Err(error)),
        Ok(ids) => if ids.len() == 0 {
            (runs, Ok(()))
        } else {
            match agent_states_answered(ids, fetch) {
                Err(error) => (runs, Err(error)),
                Ok(states) => observed_agents(runs, states),
            }
        },
    }
}

/// Synchronizing changes neither the agents nor their order, only what is known
/// of their statuses.
pub proof fn synchronized_agents_stay(
    storage: Storage,
    runs: Seq<AgentRun>,
    fetch: Fetch<AgentStatusRow>,
)
    ensures
        agents_synced(storage, runs, fetch).0.len() == runs.len(),
        forall|i: int|
            0 <= i < runs.len() ==> same_agent(
                #[trigger] agents_synced(storage, runs, fetch).0[i],
                runs[i],
            ),
{
    match pending_agents(storage, runs) {
        Ok(ids) => {
            match agent_states_answered(ids, fetch) {
                Ok(states) => {
                    lemma_observed_agents_stay(runs, states);
                },
                _ => {},
            }
        },
        _ => {},
    }
}

/// Whether two records are of the same agent, whatever its status.
pub open spec fn same_agent(left: AgentRun, right: AgentRun) -> bool {
    left == (AgentRun { status: left.status, acknowledged: left.acknowledged, ..right })
}

proof fn lemma_observed_agents_stay(runs: Seq<AgentRun>, states: Seq<(i64, AgentStatus, bool)>)
    ensures
        observed_agents(runs, states).0.len() == runs.len(),
        forall|i: int|
            0 <= i < runs.len() ==> same_agent(
                #[trigger] observed_agents(runs, states).0[i],
                runs[i],
            ),
    decreases states.len(),
{
    if states.len() > 0 {
        let shorter = states.drop_last();
        lemma_observed_agents_stay(runs, shorter);
        let (before, r) = observed_agents(runs, shorter);
        let (id, status, acknowledged) = states.last();
        lemma_observed_agent_stays(before, id, status, acknowledged);
        assert forall|i: int| 0 <= i < runs.len() implies same_agent(
            #[trigger] observed_agents(runs, states).0[i],
            runs[i],
        ) by {
            assert(same_agent(before[i], runs[i]));
            if r is Ok {
                assert(same_agent(
                    observed_agent(before, id, status, acknowledged).0[i],
                    before[i],
                ));
            }
        }
    }
}

proof fn lemma_observed_agent_stays(
    runs: Seq<AgentRun>,
    id: i64,
    status: AgentStatus,
    acknowledged: bool,
)
    ensures
        observed_agent(runs, id, status, acknowledged).0.len() == runs.len(),
        forall|i: int|
            0 <= i < runs.len() ==> same_agent(
                #[trigger] observed_agent(runs, id, status, acknowledged).0[i],
                runs[i],
            ),
    decreases runs.len(),
{
    if runs.len() > 0 {
        lemma_observed_agent_stays(runs.drop_last(), id, status, acknowledged);
        let before = observed_agent(runs.drop_last(), id, status, acknowledged).0;
        assert forall|i: int| 0 <= i < runs.len() implies same_agent(
            #[trigger] observed_agent(runs, id, status, acknowledged).0[i],
            runs[i],
        ) by {
            if i < runs.len() - 1 {
                assert(same_agent(before[i], runs.drop_last()[i]));
            }
        }
    }
}

/// Synchronizing changes neither the commands nor their order, only what is
/// known of their states, and never moves a command back.
pub proof fn synchronized_processes_stay(
    storage: Storage,
    runs: Seq<ProcessRun>,
    fetch: Fetch<ProcessStateRow>,
)
    ensures
        processes_synced(storage, runs, fetch).0.len() == runs.len(),
        forall|i: int|
            0 <= i < runs.len() ==> same_process(
                #[trigger] processes_synced(storage, runs, fetch).0[i],
                runs[i],
            ),
{
    match pending_processes(storage, runs) {
        Ok(ids) => {
            match process_states_answered(ids, fetch) {
                Ok(states) => {
                    lemma_observed_processes_stay(runs, states);
                },
                _ => {},
            }
        },
        _ => {},
    }
}

/// Whether two records are of the same command, the first not behind the second.
pub open spec fn same_process(left: ProcessRun, right: ProcessRun) -> bool {
    left == (ProcessRun { state: left.state, ..right }) && left.state.rank() >= right.state.rank()
}

proof fn lemma_place_bounds(runs: Seq<ProcessRun>, id: i64)
    ensures
        0 <= place_of(runs, id) <= runs.len(),
    decreases runs.len(),
{
    if runs.len() > 0 {
        lemma_place_bounds(runs.drop_last(), id);
    }
}

proof fn lemma_observed_processes_stay(runs: Seq<ProcessRun>, states: Seq<(i64, ProcessState)>)
    ensures
        observed_processes(runs, states).0.len() == runs.len(),
        forall|i: int|
            0 <= i < runs.len() ==> same_process(
                #[trigger] observed_processes(runs, states).0[i],
                runs[i],
            ),
    decreases states.len(),
{
    if states.len() > 0 {
        let shorter = states.drop_last();
        lemma_observed_processes_stay(runs, shorter);
        let before = observed_processes(runs, shorter).0;
        lemma_place_bounds(before, states.last().0);
        assert forall|i: int| 0 <= i < runs.len() implies same_process(
            #[trigger] observed_processes(runs, states).0[i],
            runs[i],
        ) by {
            assert(same_process(before[i], runs[i]));
        }
    }
}

/// Whether states are about different commands, and none contradicts what is
/// known of its command.
pub open spec fn consistent_states(
    runs: Seq<ProcessRun>,
    states: Seq<(i64, ProcessState)>,
) -> bool {
    &&& forall|i: int, j: int|
        0 <= i < j < states.len() ==> (#[trigger] states[i]).0 != (#[trigger] states[j]).0
    &&& forall|i: int, k: int|
        0 <= i < states.len() && 0 <= k < runs.len() && (#[trigger] runs[k]).id == (
        #[trigger] states[i]).0 ==> !runs[k].state.conflicts(states[i].1)
}

/// Consistent states are all taken over: each command that a state is about has
/// observed it, and the others are as they were.
pub proof fn consistent_states_are_taken_over(
    runs: Seq<ProcessRun>,
    states: Seq<(i64, ProcessState)>,
)
    requires
        forall|i: int, j: int| 0 <= i < j < runs.len() ==> runs[i].id != runs[j].id,
        consistent_states(runs, states),
    ensures
        observed_processes(runs, states).1 is Ok,
        observed_processes(runs, states).0.len() == runs.len(),
        forall|k: int, i: int|
            0 <= k < runs.len() && 0 <= i < states.len() && (#[trigger] runs[k]).id == (
            #[trigger] states[i]).0 ==> observed_processes(runs, states).0[k] == runs[k].observed(
                states[i].1,
            ),
        forall|k: int|
            0 <= k < runs.len() && !has_process(states, (#[trigger] runs[k]).id)
                ==> observed_processes(runs, states).0[k] == runs[k],
    decreases states.len(),
{
    lemma_observed_processes_stay(runs, states);
    if states.len() > 0 {
        let shorter = states.drop_last();
        let last = states.len() - 1;
        assert forall|i: int, k: int|
            0 <= i < shorter.len() && 0 <= k < runs.len() && (#[trigger] runs[k]).id == (
            #[trigger] shorter[i]).0 implies !runs[k].state.conflicts(shorter[i].1) by {
            assert(states[i] == shorter[i]);
        }
        assert forall|i: int, j: int| 0 <= i < j < shorter.len() implies (#[trigger] shorter[i]).0
            != (#[trigger] shorter[j]).0 by {
            assert(states[i] == shorter[i] && states[j] == shorter[j]);
        }
        consistent_states_are_taken_over(runs, shorter);
        lemma_observed_processes_stay(runs, shorter);
        let before = observed_processes(runs, shorter).0;
        let (id, state) = states.last();
        assert(states[last] == (id, state));
        assert(!has_process(shorter, id)) by {
            if has_process(shorter, id) {
                let i = choose|i: int| 0 <= i < shorter.len() && (#[trigger] shorter[i]).0 == id;
                assert(states[i].0 == states[last].0);
            }
        }
        let place = place_of(before, id);
        lemma_place_found(before, id);
        if place < before.len() {
            assert(runs[place].id == id);
            assert(before[place] == runs[place]);
            assert(!runs[place].state.conflicts(states[last].1));
        }
        let after = observed_processes(runs, states).0;
        assert forall|k: int, i: int|
            0 <= k < runs.len() && 0 <= i < states.len() && (#[trigger] runs[k]).id == (
            #[trigger] states[i]).0 implies after[k] == runs[k].observed(states[i].1) by {
            assert(same_process(before[k], runs[k]));
            if i < last {
                assert(shorter[i] == states[i]);
                assert(states[i].0 != states[last].0);
            } else {
                if place < k {
                    assert(before[place].id == before[k].id);
                    assert(same_process(before[place], runs[place]));
                }
                assert(before[k].id == id);
            }
        }
        assert forall|k: int|
            0 <= k < runs.len() && !has_process(
                states,
                (#[trigger] runs[k]).id,
            ) implies after[k] == runs[k] by {
            assert(same_process(before[k], runs[k]));
            if has_process(shorter, runs[k].id) {
                let i = choose|i: int|
                    0 <= i < shorter.len() && (#[trigger] shorter[i]).0 == runs[k].id;
                assert(states[i].0 == runs[k].id);
            }
            assert(states[last].0 != runs[k].id);
        }
    }
}

proof fn lemma_place_found(runs: Seq<ProcessRun>, id: i64)
    ensures
        0 <= place_of(runs, id) <= runs.len(),
        place_of(runs, id) < runs.len() ==> runs[place_of(runs, id)].id == id,
        forall|k: int| 0 <= k < place_of(runs, id) ==> (#[trigger] runs[k]).id != id,
    decreases runs.len(),
{
    if runs.len() > 0 {
        let shorter = runs.drop_last();
        lemma_place_found(shorter, id);
        assert forall|k: int| 0 <= k < place_of(runs, id) implies (#[trigger] runs[k]).id != id by {
            if k < shorter.len() {
                assert(shorter[k] == runs[k]);
            }
        }
    }
}

/// Whether statuses are about different agents, and each is one that its agent
/// can be in.
pub open spec fn plausible_statuses(
    runs: Seq<AgentRun>,
    states: Seq<(i64, AgentStatus, bool)>,
) -> bool {
    &&& forall|i: int, j: int|
        0 <= i < j < states.len() ==> (#[trigger] states[i]).0 != (#[trigger] states[j]).0
    &&& forall|i: int, k: int|
        0 <= i < states.len() && 0 <= k < runs.len() && (#[trigger] runs[k]).id == (
        #[trigger] states[i]).0 ==> runs[k].plausible(states[i].1, states[i].2)
}

/// Plausible statuses are all taken over: each agent that a status is about has
/// it, and the others are as they were.
pub proof fn plausible_statuses_are_taken_over(
    runs: Seq<AgentRun>,
    states: Seq<(i64, AgentStatus, bool)>,
)
    requires
        plausible_statuses(runs, states),
    ensures
        observed_agents(runs, states).1 is Ok,
        observed_agents(runs, states).0.len() == runs.len(),
        forall|k: int, i: int|
            0 <= k < runs.len() && 0 <= i < states.len() && (#[trigger] runs[k]).id == (
            #[trigger] states[i]).0 ==> observed_agents(runs, states).0[k] == (AgentRun {
                status: states[i].1,
                acknowledged: states[i].2,
                ..runs[k]
            }),
        forall|k: int|
            0 <= k < runs.len() && !has_agent(states, (#[trigger] runs[k]).id) ==> observed_agents(
                runs,
                states,
            ).0[k] == runs[k],
    decreases states.len(),
{
    if states.len() > 0 {
        let shorter = states.drop_last();
        let last = states.len() - 1;
        assert forall|i: int, k: int|
            0 <= i < shorter.len() && 0 <= k < runs.len() && (#[trigger] runs[k]).id == (
            #[trigger] shorter[i]).0 implies runs[k].plausible(shorter[i].1, shorter[i].2) by {
            assert(states[i] == shorter[i]);
        }
        assert forall|i: int, j: int| 0 <= i < j < shorter.len() implies (#[trigger] shorter[i]).0
            != (#[trigger] shorter[j]).0 by {
            assert(states[i] == shorter[i] && states[j] == shorter[j]);
        }
        plausible_statuses_are_taken_over(runs, shorter);
        let before = observed_agents(runs, shorter).0;
        let (id, status, acknowledged) = states.last();
        assert(states[last] == (id, status, acknowledged));
        assert(!has_agent(shorter, id)) by {
            if has_agent(shorter, id) {
                let i = choose|i: int| 0 <= i < shorter.len() && (#[trigger] shorter[i]).0 == id;
                assert(states[i].0 == states[last].0);
            }
        }
        lemma_observed_agents_stay(runs, shorter);
        assert forall|k: int| 0 <= k < before.len() && (#[trigger] before[k]).id
            == id implies before[k].plausible(status, acknowledged) by {
            assert(same_agent(before[k], runs[k]));
            assert(runs[k].id == id);
            assert(before[k] == runs[k]);
            assert(runs[k].plausible(states[last].1, states[last].2));
        }
        lemma_observed_agent_exact(before, id, status, acknowledged);
        let after = observed_agents(runs, states).0;
        assert forall|k: int, i: int|
            0 <= k < runs.len() && 0 <= i < states.len() && (#[trigger] runs[k]).id == (
            #[trigger] states[i]).0 implies after[k] == (AgentRun {
            status: states[i].1,
            acknowledged: states[i].2,
            ..runs[k]
        }) by {
            assert(same_agent(before[k], runs[k]));
            if i < last {
                assert(shorter[i] == states[i]);
                assert(states[i].0 != states[last].0);
            } else {
                assert(before[k] == runs[k]);
            }
        }
        assert forall|k: int|
            0 <= k < runs.len() && !has_agent(
                states,
                (#[trigger] runs[k]).id,
            ) implies after[k] == runs[k] by {
            assert(same_agent(before[k], runs[k]));
            if has_agent(shorter, runs[k].id) {
                let i = choose|i: int|
                    0 <= i < shorter.len() && (#[trigger] shorter[i]).0 == runs[k].id;
                assert(states[i].0 == runs[k].id);
            }
            assert(states[last].0 != runs[k].id);
        }
    }
}

proof fn lemma_observed_agent_exact(
    runs: Seq<AgentRun>,
    id: i64,
    status: AgentStatus,
    acknowledged: bool,
)
    requires
        forall|k: int|
            0 <= k < runs.len() && (#[trigger] runs[k]).id == id ==> runs[k].plausible(
                status,
                acknowledged,
            ),
    ensures
        observed_agent(runs, id, status, acknowledged).1 is Ok,
        observed_agent(runs, id, status, acknowledged).0.len() == runs.len(),
        forall|k: int|
            0 <= k < runs.len() ==> #[trigger] observed_agent(
                runs,
                id,
                status,
                acknowledged,
            ).0[k] == if runs[k].id == id {
                AgentRun { status, acknowledged, ..runs[k] }
            } else {
                runs[k]
            },
    decreases runs.len(),
{
    if runs.len() > 0 {
        let shorter = runs.drop_last();
        assert forall|k: int| 0 <= k < shorter.len() && (#[trigger] shorter[k]).id
            == id implies shorter[k].plausible(status, acknowledged) by {
            assert(runs[k] == shorter[k]);
        }
        lemma_observed_agent_exact(shorter, id, status, acknowledged);
        assert(runs[runs.len() - 1] == runs.last());
        let before = observed_agent(shorter, id, status, acknowledged).0;
        assert forall|k: int| 0 <= k < runs.len() implies #[trigger] observed_agent(
            runs,
            id,
            status,
            acknowledged,
        ).0[k] == (if runs[k].id == id {
            AgentRun { status, acknowledged, ..runs[k] }
        } else {
            runs[k]
        }) by {
            if k < shorter.len() {
                assert(before[k] == if shorter[k].id == id {
                    AgentRun { status, acknowledged, ..shorter[k] }
                } else {
                    shorter[k]
                });
            }
        }
    }
}

} // verus!
