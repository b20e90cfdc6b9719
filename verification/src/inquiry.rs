//! What the answers of the database come to: rows that are read, states that are
//! observed, and what the panel makes of them.

use vstd::pervasive::arbitrary;
use vstd::prelude::*;
use vstd::string::*;

use crate::agent::{agent_synced, AgentRun, AgentStatus};
use crate::answers::{
    agent_states_answered, agent_states_in, agent_status_of, agents_fetched, agents_in, first_of,
    listed, missing_agent, missing_process, process_state_of, process_states_answered,
    process_states_in, processes_fetched, processes_in,
};
use crate::error::{plain, reported, Error, ErrorView, Failure};
use crate::focus::FocusStep;
use crate::observation::{
    agent_ids_pending, foreign_agent, foreign_process, pending_agents, pending_processes,
    process_ids_pending,
};
use crate::orchestrator::{Orchestrator, Shell, Tmux};
use crate::panel::{
    has_agent, has_process, lemma_agent_found, lemma_process_found, merged_agents,
    merged_processes, PanelData, TrackedId,
};
use crate::process::{asked_if_running, synced, taken, ProcessRun, ProcessState};
use crate::query::{
    chunk_of, placeholders, AgentStatusRow, Fetch, ProcessQuery, ProcessStateRow, STATE_CHUNK,
};
use crate::refresh::{
    lemma_merged_processes_hold, load_fault, preview_text, processes_through, TargetEvent,
    TargetStep, HISTORY_BATCH,
};
use crate::rows::{
    agent_fault, agent_of, agent_state_fault, process_fault, process_of, state_fault, AgentRow,
    AgentStateRow, HostRow, ProcessRow, StateRow,
};
use crate::storage::Storage;
use crate::tables::{answers_processes, process_ranges_skip_nothing, Tables};
use crate::text::{blank, signed};
use crate::worker::{PanelEvent, Worker};

verus! {

/// Whether a host that a row refers to is there: exactly one flag is set, and the row of
/// that kind of host with that number was found.
pub open spec fn host_is_there(host: HostRow) -> bool {
    &&& host.shell is Ok && host.tmux is Ok && host.orchestrator_id is Ok
    &&& host.orchestrator_id->Ok_0 > 0
    &&& {
        ||| host.shell->Ok_0 == 1 && host.tmux->Ok_0 == 0 && host.shell_id == Ok::<
            Option<i64>,
            String,
        >(Some(host.orchestrator_id->Ok_0)) && host.shell_cwd is Ok
        ||| host.shell->Ok_0 == 0 && host.tmux->Ok_0 == 1 && host.tmux_id == Ok::<
            Option<i64>,
            String,
        >(Some(host.orchestrator_id->Ok_0)) && host.tmux_cwd is Ok && host.tmux_pane is Ok
            && host.tmux_pane->Ok_0@.len() > 0
    }
}

/// The row of a command is taken as sound exactly where all columns could be read, it
/// has a positive number and a label, its flags tell a state, it did not end before it
/// started, and its host is there.
pub proof fn rows_of_commands_are_checked(row: ProcessRow)
    ensures
        process_fault(row) is None <==> {
            &&& row.id is Ok && row.label is Ok && row.started_at is Ok
            &&& row.id->Ok_0 > 0 && row.label->Ok_0@.len() > 0
            &&& state_fault(row.state) is None
            &&& host_is_there(row.host)
            &&& match process_of(row, arbitrary()).state {
                ProcessState::Running => true,
                ProcessState::Finished { finished_at, .. } => process_of(
                    row,
                    arbitrary(),
                ).started_at.nanos <= finished_at.nanos,
                ProcessState::Acknowledged { finished_at, .. } => process_of(
                    row,
                    arbitrary(),
                ).started_at.nanos <= finished_at.nanos,
            }
        },
{
}

/// The row of an agent is taken as sound exactly where all columns could be read, it has
/// a positive number, a kind and a start from the epoch on, its status is one, only a
/// done one is acknowledged, and its host is there.
pub proof fn rows_of_agents_are_checked(row: AgentRow)
    ensures
        agent_fault(row) is None <==> {
            &&& row.id is Ok && row.kind is Ok && row.started_at is Ok
            &&& row.id->Ok_0 > 0 && !blank(row.kind->Ok_0@) && row.started_at->Ok_0 >= 0
            &&& agent_state_fault(row.state) is None
            &&& host_is_there(row.host)
        },
{
}

/// A stored status is one of the five, and acknowledged only where it is done.
pub proof fn stored_statuses_are_checked(row: AgentStateRow)
    ensures
        agent_state_fault(row) is None <==> row.status is Ok && row.acked is Ok && 1
            <= row.status->Ok_0 <= 5 && (row.acked->Ok_0 == 0 || row.acked->Ok_0 == 1
            && row.status->Ok_0 == 4),
{
}

/// The columns of a state are sound exactly where all of them could be read and they
/// tell one.
pub proof fn stored_states_are_checked(row: StateRow)
    ensures
        state_fault(row) is None <==> row.running is Ok && row.finished is Ok && row.acked is Ok
            && row.finished_at is Ok && row.exit_status is Ok && crate::rows::lifecycle(
            row.running->Ok_0,
            row.finished->Ok_0,
            row.acked->Ok_0,
            row.finished_at->Ok_0,
            row.exit_status->Ok_0,
        ) is Some,
{
}

/// A list that was read is one item for each row, in the order of the rows, where all of
/// them are sound and the database did not fail; else it is an error.
pub proof fn lists_are_read_row_by_row(
    rows: Vec<ProcessRow>,
    agent_rows: Vec<AgentRow>,
    failure: Option<Failure>,
    storage: Storage,
)
    ensures
        processes_fetched(Fetch::Rows { rows, failure }, storage) is Ok <==> failure is None
            && forall|i: int|
            0 <= i < rows@.len() ==> process_fault(#[trigger] rows@[i]) is None,
        processes_fetched(Fetch::Rows { rows, failure }, storage) matches Ok(found)
            ==> found.len() == rows@.len() && forall|i: int|
            0 <= i < rows@.len() ==> #[trigger] found[i] == process_of(rows@[i], storage),
        agents_fetched(Fetch::Rows { rows: agent_rows, failure }, storage) is Ok <==> failure
            is None && forall|i: int|
            0 <= i < agent_rows@.len() ==> agent_fault(#[trigger] agent_rows@[i]) is None,
        agents_fetched(Fetch::Rows { rows: agent_rows, failure }, storage) matches Ok(found)
            ==> found.len() == agent_rows@.len() && forall|i: int|
            0 <= i < agent_rows@.len() ==> #[trigger] found[i] == agent_of(agent_rows@[i], storage),
        processes_fetched(Fetch::Absent, storage) == Ok::<Seq<ProcessRun>, ErrorView>(
            Seq::empty(),
        ),
        agents_fetched(Fetch::Absent, storage) == Ok::<Seq<AgentRun>, ErrorView>(Seq::empty()),
{
    lemma_processes_in(rows@, storage);
    lemma_agents_in(agent_rows@, storage);
}

proof fn lemma_processes_in(rows: Seq<ProcessRow>, storage: Storage)
    ensures
        processes_in(rows, storage) is Ok <==> forall|i: int|
            0 <= i < rows.len() ==> process_fault(#[trigger] rows[i]) is None,
        processes_in(rows, storage) matches Ok(found) ==> found.len() == rows.len() && forall|
            i: int,
        |
            0 <= i < rows.len() ==> #[trigger] found[i] == process_of(rows[i], storage),
    decreases rows.len(),
{
    if rows.len() > 0 {
        let shorter = rows.drop_last();
        lemma_processes_in(shorter, storage);
        assert(forall|i: int| 0 <= i < shorter.len() ==> #[trigger] shorter[i] == rows[i]);
        assert(rows[rows.len() - 1] == rows.last());
        if processes_in(rows, storage) is Ok {
            assert forall|i: int| 0 <= i < rows.len() implies process_fault(
                #[trigger] rows[i],
            ) is None by {
                if i < shorter.len() {
                    assert(shorter[i] == rows[i]);
                }
            }
        }
        if forall|i: int| 0 <= i < rows.len() ==> process_fault(#[trigger] rows[i]) is None {
            assert forall|i: int| 0 <= i < shorter.len() implies process_fault(
                #[trigger] shorter[i],
            ) is None by {
                assert(shorter[i] == rows[i]);
            }
        }
    }
}

proof fn lemma_agents_in(rows: Seq<AgentRow>, storage: Storage)
    ensures
        agents_in(rows, storage) is Ok <==> forall|i: int|
            0 <= i < rows.len() ==> agent_fault(#[trigger] rows[i]) is None,
        agents_in(rows, storage) matches Ok(found) ==> found.len() == rows.len() && forall|i: int|
            0 <= i < rows.len() ==> #[trigger] found[i] == agent_of(rows[i], storage),
    decreases rows.len(),
{
    if rows.len() > 0 {
        let shorter = rows.drop_last();
        lemma_agents_in(shorter, storage);
        assert(forall|i: int| 0 <= i < shorter.len() ==> #[trigger] shorter[i] == rows[i]);
        assert(rows[rows.len() - 1] == rows.last());
        if agents_in(rows, storage) is Ok {
            assert forall|i: int| 0 <= i < rows.len() implies agent_fault(
                #[trigger] rows[i],
            ) is None by {
                if i < shorter.len() {
                    assert(shorter[i] == rows[i]);
                }
            }
        }
        if forall|i: int| 0 <= i < rows.len() ==> agent_fault(#[trigger] rows[i]) is None {
            assert forall|i: int| 0 <= i < shorter.len() implies agent_fault(
                #[trigger] shorter[i],
            ) is None by {
                assert(shorter[i] == rows[i]);
            }
        }
    }
}

/// Where an answer failed, that is what comes of it.
pub proof fn failed_answers_are_errors(
    error: Error,
    rows: Vec<ProcessRow>,
    state_rows: Vec<ProcessStateRow>,
    failure: Failure,
    ids: Seq<i64>,
    storage: Storage,
)
    requires
        ids.len() > 0,
        rows@.len() == 0,
        state_rows@.len() == 0,
    ensures
        processes_fetched(Fetch::Refused(error), storage) == Err::<Seq<ProcessRun>, ErrorView>(
            error@,
        ),
        agents_fetched(Fetch::Refused(error), storage) == Err::<Seq<AgentRun>, ErrorView>(error@),
        processes_fetched(Fetch::Rows { rows, failure: Some(failure) }, storage) == Err::<
            Seq<ProcessRun>,
            ErrorView,
        >(reported(failure)),
        process_states_answered(ids, Fetch::Refused(error)) == Err::<
            Seq<(i64, ProcessState)>,
            ErrorView,
        >(error@),
        agent_states_answered(ids, Fetch::Refused(error)) == Err::<
            Seq<(i64, AgentStatus, bool)>,
            ErrorView,
        >(error@),
        process_states_answered(ids, Fetch::Absent) == Err::<Seq<(i64, ProcessState)>, ErrorView>(
            ErrorView::NotFound(ids[0]),
        ),
        agent_states_answered(ids, Fetch::Absent) == Err::<
            Seq<(i64, AgentStatus, bool)>,
            ErrorView,
        >(ErrorView::AgentNotFound(ids[0])),
        process_states_answered(
            ids,
            Fetch::Rows { rows: state_rows, failure: Some(failure) },
        ) == Err::<Seq<(i64, ProcessState)>, ErrorView>(reported(failure)),
        process_states_answered(ids, Fetch::Rows { rows: state_rows, failure: None }) is Err,
{
    lemma_first_missing(ids);
}

proof fn lemma_first_missing(ids: Seq<i64>)
    requires
        ids.len() > 0,
    ensures
        missing_process(ids, Seq::empty()) is Some,
    decreases ids.len(),
{
    if ids.len() > 1 {
        lemma_first_missing(ids.drop_last());
    }
}

/// An item is read into the host that its flags name, with the directory, and the pane,
/// of that host's row.
pub proof fn hosts_are_read_by_their_flags(process: ProcessRow, agent: AgentRow, storage: Storage)
    requires
        process_fault(process) is None,
        agent_fault(agent) is None,
    ensures
        process.host.shell->Ok_0 == 1 ==> process_of(process, storage).orchestrator
            == Orchestrator::Shell(
            Shell {
                id: process.host.orchestrator_id->Ok_0,
                cwd: process.host.shell_cwd->Ok_0,
                storage,
            },
        ),
        process.host.tmux->Ok_0 == 1 ==> process_of(process, storage).orchestrator
            == Orchestrator::Tmux(
            Tmux {
                id: process.host.orchestrator_id->Ok_0,
                cwd: process.host.tmux_cwd->Ok_0,
                pane: process.host.tmux_pane->Ok_0,
                storage,
            },
        ),
        agent.host.shell->Ok_0 == 1 ==> agent_of(agent, storage).orchestrator
            == Orchestrator::Shell(
            Shell {
                id: agent.host.orchestrator_id->Ok_0,
                cwd: agent.host.shell_cwd->Ok_0,
                storage,
            },
        ),
        agent.host.tmux->Ok_0 == 1 ==> agent_of(agent, storage).orchestrator
            == Orchestrator::Tmux(
            Tmux {
                id: agent.host.orchestrator_id->Ok_0,
                cwd: agent.host.tmux_cwd->Ok_0,
                pane: agent.host.tmux_pane->Ok_0,
                storage,
            },
        ),
{
}

proof fn lemma_process_states_in(rows: Seq<ProcessStateRow>)
    ensures
        process_states_in(rows) matches Ok(found) ==> found.len() == rows.len() && forall|i: int|
            0 <= i < rows.len() ==> #[trigger] found[i] == process_state_of(rows[i]),
    decreases rows.len(),
{
    if rows.len() > 0 {
        lemma_process_states_in(rows.drop_last());
    }
}

proof fn lemma_agent_states_in(rows: Seq<AgentStatusRow>)
    ensures
        agent_states_in(rows) matches Ok(found) ==> found.len() == rows.len() && forall|i: int|
            0 <= i < rows.len() ==> #[trigger] found[i] == agent_status_of(rows[i]),
    decreases rows.len(),
{
    if rows.len() > 0 {
        lemma_agent_states_in(rows.drop_last());
    }
}

proof fn lemma_missing_processes(ids: Seq<i64>, found: Seq<(i64, ProcessState)>)
    ensures
        missing_process(ids, found) is None ==> forall|k: int|
            0 <= k < ids.len() ==> (exists|i: int|
                0 <= i < found.len() && (#[trigger] found[i]).0 == #[trigger] ids[k]),
        missing_process(ids, found) matches Some(id) ==> ids.contains(id) && forall|i: int|
            0 <= i < found.len() ==> (#[trigger] found[i]).0 != id,
    decreases ids.len(),
{
    if ids.len() > 0 {
        let shorter = ids.drop_last();
        lemma_missing_processes(shorter, found);
        if missing_process(shorter, found) is Some {
            let k = choose|k: int|
                0 <= k < shorter.len() && shorter[k] == missing_process(shorter, found)->0;
            assert(ids[k] == shorter[k]);
        } else {
            assert(ids[ids.len() - 1] == ids.last());
            assert forall|k: int| 0 <= k < ids.len() && missing_process(ids, found) is None implies (
            exists|i: int| 0 <= i < found.len() && (#[trigger] found[i]).0 == #[trigger] ids[k]) by {
                if k < shorter.len() {
                    assert(shorter[k] == ids[k]);
                }
            }
        }
    }
}

proof fn lemma_missing_agents(ids: Seq<i64>, found: Seq<(i64, AgentStatus, bool)>)
    ensures
        missing_agent(ids, found) is None ==> forall|k: int|
            0 <= k < ids.len() ==> (exists|i: int|
                0 <= i < found.len() && (#[trigger] found[i]).0 == #[trigger] ids[k]),
        missing_agent(ids, found) matches Some(id) ==> ids.contains(id) && forall|i: int|
            0 <= i < found.len() ==> (#[trigger] found[i]).0 != id,
    decreases ids.len(),
{
    if ids.len() > 0 {
        let shorter = ids.drop_last();
        lemma_missing_agents(shorter, found);
        if missing_agent(shorter, found) is Some {
            let k = choose|k: int|
                0 <= k < shorter.len() && shorter[k] == missing_agent(shorter, found)->0;
            assert(ids[k] == shorter[k]);
        } else {
            assert(ids[ids.len() - 1] == ids.last());
            assert forall|k: int| 0 <= k < ids.len() && missing_agent(ids, found) is None implies (
            exists|i: int| 0 <= i < found.len() && (#[trigger] found[i]).0 == #[trigger] ids[k]) by {
                if k < shorter.len() {
                    assert(shorter[k] == ids[k]);
                }
            }
        }
    }
}

/// Where the states of commands are answered, there is one for each number that was asked
/// about, and each is that of its row. Where a number is missing among sound rows, that
/// is the error.
pub proof fn states_are_answered_for_each_command(ids: Seq<i64>, rows: Vec<ProcessStateRow>, k: int)
    requires
        0 <= k < ids.len(),
    ensures
        process_states_answered(ids, Fetch::Rows { rows, failure: None }) matches Ok(found)
            ==> found.len() == rows@.len() && (exists|i: int|
            0 <= i < found.len() && (#[trigger] found[i]).0 == ids[k]) && forall|i: int|
            0 <= i < found.len() ==> (#[trigger] found[i]).0 == rows@[i].id->Ok_0,
        process_states_answered(ids, Fetch::Rows { rows, failure: None }) matches Err(error) ==> (
        error is CorruptData || (error matches ErrorView::NotFound(id) && ids.contains(id))),
{
    lemma_process_states_in(rows@);
    match process_states_in(rows@) {
        Ok(found) => {
            lemma_missing_processes(ids, found);
        },
        Err(_) => {
            lemma_process_state_errors(rows@);
        },
    }
}

proof fn lemma_process_state_errors(rows: Seq<ProcessStateRow>)
    ensures
        process_states_in(rows) matches Err(error) ==> error is CorruptData,
    decreases rows.len(),
{
    if rows.len() > 0 {
        lemma_process_state_errors(rows.drop_last());
    }
}

proof fn lemma_agent_state_errors(rows: Seq<AgentStatusRow>)
    ensures
        agent_states_in(rows) matches Err(error) ==> error is CorruptData,
    decreases rows.len(),
{
    if rows.len() > 0 {
        lemma_agent_state_errors(rows.drop_last());
    }
}

/// Where the statuses of agents are answered, there is one for each number that was asked
/// about, and each is that of its row. Where a number is missing among sound rows, that
/// is the error.
pub proof fn statuses_are_answered_for_each_agent(ids: Seq<i64>, rows: Vec<AgentStatusRow>, k: int)
    requires
        0 <= k < ids.len(),
    ensures
        agent_states_answered(ids, Fetch::Rows { rows, failure: None }) matches Ok(found)
            ==> found.len() == rows@.len() && (exists|i: int|
            0 <= i < found.len() && (#[trigger] found[i]).0 == ids[k]) && forall|i: int|
            0 <= i < found.len() ==> (#[trigger] found[i]).0 == rows@[i].id->Ok_0 && found[i].2 == (
            rows@[i].state.acked->Ok_0 == 1),
        agent_states_answered(ids, Fetch::Rows { rows, failure: None }) matches Err(error) ==> (
        error is CorruptData || (error matches ErrorView::AgentNotFound(id) && ids.contains(id))),
{
    lemma_agent_states_in(rows@);
    match agent_states_in(rows@) {
        Ok(found) => {
            lemma_missing_agents(ids, found);
        },
        Err(_) => {
            lemma_agent_state_errors(rows@);
        },
    }
}

/// The item under a number is the first one of the list, and where the list is empty it
/// is missing.
pub proof fn single_items_are_found(
    found: Result<Vec<ProcessRun>, Error>,
    missing: ErrorView,
)
    ensures
        found matches Ok(list) ==> first_of(listed(found), missing) == if list@.len() == 0 {
            Err::<ProcessRun, ErrorView>(missing)
        } else {
            Ok(list@[0])
        },
        found matches Err(error) ==> first_of(listed(found), missing) == Err::<
            ProcessRun,
            ErrorView,
        >(error@),
{
}

/// The state of a command is taken over from storage, unless its end contradicts the
/// known one or it was acknowledged; an error of storage changes nothing.
pub proof fn states_are_taken_over(
    run: ProcessRun,
    answer: Result<ProcessState, Error>,
    after: ProcessRun,
    r: Result<(), Error>,
)
    requires
        taken(run, answer, after, r),
    ensures
        answer matches Err(error) ==> after == run && r == Err::<(), Error>(error),
        answer matches Ok(state) ==> run.state is Running ==> r is Ok && after == (ProcessRun {
            state,
            ..run
        }),
        r is Err ==> after == run,
        answer matches Ok(state) ==> r is Err ==> (r->Err_0 matches Error::CorruptData(text)
            && text@ == "process "@ + signed(run.id as int)
            + " has inconsistent completion facts"@),
{
}

/// Storage is asked about a command only as long as something can change: at all until
/// it is acknowledged, and about its end until it has one.
pub proof fn settled_commands_are_not_asked_about(
    run: ProcessRun,
    answer: Result<ProcessState, Error>,
    after: ProcessRun,
    r: Result<(), Error>,
)
    ensures
        run.state is Acknowledged ==> (synced(run, answer, after, r) <==> after == run && r is Ok),
        !(run.state is Acknowledged) ==> (synced(run, answer, after, r) <==> taken(
            run,
            answer,
            after,
            r,
        )),
        !(run.state is Running) ==> (asked_if_running(run, answer, after, r) <==> after == run
            && r is Ok),
        run.state is Running ==> (asked_if_running(run, answer, after, r) <==> taken(
            run,
            answer,
            after,
            r,
        )),
{
}

/// The status of an agent is taken over from storage, unless it cannot have come of the
/// known one; a killed agent is not asked about any more.
pub proof fn statuses_are_taken_over(
    run: AgentRun,
    answer: Result<(AgentStatus, bool), Error>,
    after: AgentRun,
    r: Result<(), Error>,
)
    requires
        agent_synced(run, answer, after, r),
    ensures
        run.status == AgentStatus::Killed ==> after == run && r is Ok,
        run.status != AgentStatus::Killed ==> match answer {
            Err(error) => after == run && r == Err::<(), Error>(error),
            Ok((status, acknowledged)) => if (status != AgentStatus::Idle || run.status
                == AgentStatus::Idle) && (acknowledged ==> status == AgentStatus::Done) {
                r is Ok && after == (AgentRun { status, acknowledged, ..run })
            } else {
                (r matches Err(Error::CorruptData(_))) && after == run
            },
        },
{
}

/// Commands and agents of another storage are refused before anything is asked.
pub proof fn items_of_other_storage_are_refused(
    storage: Storage,
    processes: Seq<ProcessRun>,
    agents: Seq<AgentRun>,
)
    ensures
        (forall|i: int|
            0 <= i < processes.len() ==> (#[trigger] processes[i]).storage.handle == storage.handle)
            <==> pending_processes(storage, processes) == Ok::<Seq<i64>, ErrorView>(
            process_ids_pending(processes),
        ),
        (forall|i: int|
            0 <= i < agents.len() ==> (#[trigger] agents[i]).storage.handle == storage.handle)
            <==> pending_agents(storage, agents) == Ok::<Seq<i64>, ErrorView>(
            agent_ids_pending(agents),
        ),
        pending_processes(storage, processes) matches Err(error) ==> error is WrongStorage,
        pending_agents(storage, agents) matches Err(error) ==> error is AgentWrongStorage,
{
    lemma_foreign_processes(storage, processes);
    lemma_foreign_agents(storage, agents);
}

proof fn lemma_foreign_processes(storage: Storage, runs: Seq<ProcessRun>)
    ensures
        foreign_process(storage, runs) is None <==> forall|i: int|
            0 <= i < runs.len() ==> (#[trigger] runs[i]).storage.handle == storage.handle,
    decreases runs.len(),
{
    if runs.len() > 0 {
        let shorter = runs.drop_last();
        lemma_foreign_processes(storage, shorter);
        assert(runs[runs.len() - 1] == runs.last());
        assert(forall|i: int| 0 <= i < shorter.len() ==> #[trigger] shorter[i] == runs[i]);
        if foreign_process(storage, runs) is None {
            assert forall|i: int| 0 <= i < runs.len() implies (#[trigger] runs[i]).storage.handle
                == storage.handle by {
                if i < shorter.len() {
                    assert(shorter[i] == runs[i]);
                }
            }
        }
        if forall|i: int|
            0 <= i < runs.len() ==> (#[trigger] runs[i]).storage.handle == storage.handle {
            assert forall|i: int| 0 <= i < shorter.len() implies (
            #[trigger] shorter[i]).storage.handle == storage.handle by {
                assert(shorter[i] == runs[i]);
            }
        }
    }
}

proof fn lemma_foreign_agents(storage: Storage, runs: Seq<AgentRun>)
    ensures
        foreign_agent(storage, runs) is None <==> forall|i: int|
            0 <= i < runs.len() ==> (#[trigger] runs[i]).storage.handle == storage.handle,
    decreases runs.len(),
{
    if runs.len() > 0 {
        let shorter = runs.drop_last();
        lemma_foreign_agents(storage, shorter);
        assert(runs[runs.len() - 1] == runs.last());
        assert(forall|i: int| 0 <= i < shorter.len() ==> #[trigger] shorter[i] == runs[i]);
        if foreign_agent(storage, runs) is None {
            assert forall|i: int| 0 <= i < runs.len() implies (#[trigger] runs[i]).storage.handle
                == storage.handle by {
                if i < shorter.len() {
                    assert(shorter[i] == runs[i]);
                }
            }
        }
        if forall|i: int|
            0 <= i < runs.len() ==> (#[trigger] runs[i]).storage.handle == storage.handle {
            assert forall|i: int| 0 <= i < shorter.len() implies (
            #[trigger] shorter[i]).storage.handle == storage.handle by {
                assert(shorter[i] == runs[i]);
            }
        }
    }
}

/// A statement about many items has one parameter for each of them.
pub proof fn parameters_are_written_out(count: nat)
    ensures
        placeholders(0).len() == 0,
        placeholders(1) == seq!['?'],
        count > 0 ==> placeholders(count + 1) == placeholders(count) + seq![',', '?'],
{
    let none = Seq::new(0, |i: int| seq!['?']);
    assert(none =~= Seq::empty());
    let more = Seq::new(count + 1, |i: int| seq!['?']);
    let less = Seq::new(count, |i: int| seq!['?']);
    assert(more.drop_last() =~= less);
    if count > 0 {
        assert(placeholders(count + 1) =~= placeholders(count) + seq![',', '?']);
    }
}

/// Many numbers are asked about in parts: each of them is in the part that its place
/// tells, and no part is larger than a statement can take.
pub proof fn numbers_are_asked_about_in_parts(ids: Seq<i64>, part: int, place: int)
    requires
        0 <= part,
        0 <= place < STATE_CHUNK,
        part * STATE_CHUNK + place < ids.len(),
    ensures
        chunk_of(ids, part).len() <= STATE_CHUNK,
        place < chunk_of(ids, part).len(),
        chunk_of(ids, part)[place] == ids[part * STATE_CHUNK + place],
        0 < STATE_CHUNK <= 999,
{
}

/// The panel shows or hides the history by turns. Where it is shown for the first time,
/// it reaches up to the command with the largest number.
pub proof fn history_is_shown_by_turns(
    panel: PanelData,
    latest: Result<Option<i64>, Error>,
    after: PanelData,
    r: Result<(), Error>,
)
    requires
        panel.toggle_follows(latest, after, r),
    ensures
        r is Ok ==> after.show_history == !panel.show_history && after.message is None,
        r is Err ==> after == panel && !panel.show_history && panel.history_through is None
            && latest is Err,
        r is Ok && !panel.show_history && panel.history_through is None ==> (latest matches Ok(id)
            && after.history_through == Some(
            match id {
                Some(id) => id,
                None => 0i64,
            },
        )),
        panel.history_through is Some ==> after.history_through == panel.history_through
            && after.history_loaded == panel.history_loaded,
        after.history_after == panel.history_after,
        after.agents == panel.agents && after.processes == panel.processes,
{
}

/// The history is read without gaps: once a part of it has been taken over, the panel
/// holds each stored command up to where the next part begins, and when it is complete,
/// up to its end.
pub proof fn history_is_read_without_gaps(
    t: Tables,
    panel: PanelData,
    found: Vec<ProcessRun>,
    after: PanelData,
    r: Result<(), Error>,
    id: i64,
)
    requires
        panel.wf(),
        panel.show_history,
        !panel.history_loaded,
        panel.history_after < panel.history_end(),
        answers_processes(
            t,
            ProcessQuery::Range {
                after: panel.history_after,
                through: panel.history_end(),
                limit: HISTORY_BATCH as i64,
            },
            found@.map_values(|run: ProcessRun| run.id),
        ),
        panel.history_follows(Ok(found), after, r),
        r is Ok,
        t.processes.contains_key(id),
        panel.history_after < id,
    ensures
        id <= after.history_after ==> has_process(after.processes@, id),
        after.history_loaded <==> after.history_after >= panel.history_end(),
        after.history_loaded && id <= panel.history_end() ==> has_process(after.processes@, id),
        after.agents == panel.agents,
        after.show_history,
{
    let ids = found@.map_values(|run: ProcessRun| run.id);
    let reached = processes_through(found@, panel.history_end());
    if id <= reached {
        process_ranges_skip_nothing(
            t,
            panel.history_after,
            panel.history_end(),
            HISTORY_BATCH as i64,
            ids,
            id,
        );
        let i = ids.index_of(id);
        assert(found@[i].id == id);
        lemma_merged_processes_hold(panel.processes@, found@, id);
    }
}

/// Where nothing can be navigated to, since nothing is to change, it is said where the
/// item was started.
pub proof fn previews_name_the_destination(host: Orchestrator)
    ensures
        host matches Orchestrator::Shell(shell) ==> preview_text(host)
            == "dry run: would navigate to shell ("@ + shell.cwd@ + ")"@,
        host matches Orchestrator::Tmux(tmux) ==> preview_text(host)
            == "dry run: would navigate to tmux "@ + tmux.pane@ + " ("@ + tmux.cwd@ + ")"@,
{
    reveal_strlit("dry run: would navigate to ");
    reveal_strlit("shell");
    reveal_strlit("tmux ");
    reveal_strlit(" (");
    reveal_strlit("dry run: would navigate to shell (");
    reveal_strlit("dry run: would navigate to tmux ");
    assert("dry run: would navigate to "@ + "shell"@ + " ("@
        =~= "dry run: would navigate to shell ("@);
    match host {
        Orchestrator::Tmux(tmux) => {
            assert("dry run: would navigate to "@ + ("tmux "@ + tmux.pane@)
                =~= "dry run: would navigate to tmux "@ + tmux.pane@);
        },
        _ => {},
    }
}

/// An item that the panel does not hold cannot be focused, and is asked about nowhere.
pub proof fn unknown_items_cannot_be_focused(
    panel: PanelData,
    event: TargetEvent,
    after: PanelData,
    r: TargetStep,
)
    requires
        panel.focus_follows(event, after, r),
    ensures
        event matches TargetEvent::Agent { id, .. } ==> !has_agent(panel.agents@, id) ==> after
            == panel && r == TargetStep::Focus(FocusStep::Failed(Error::AgentNotFound(id))),
        event matches TargetEvent::Process { id, .. } ==> !has_process(panel.processes@, id)
            ==> after == panel && r == TargetStep::Focus(FocusStep::Failed(Error::NotFound(id))),
        !panel.dry_run && (r matches TargetStep::Focus(step) && step is Arrived)
            ==> after.message is None,
        !panel.dry_run ==> after.storage == panel.storage && after.dry_run == panel.dry_run,
{
}

/// In a dry run the panel says where the item was started, and stays as it was else.
pub proof fn dry_runs_say_where_an_item_is(
    panel: PanelData,
    k: int,
    event: TargetEvent,
    after: PanelData,
)
    requires
        panel.wf(),
        panel.dry_run,
        panel.meets(event),
        panel.focus_follows(event, after, TargetStep::Previewed),
        match event {
            TargetEvent::Agent { id, .. } => 0 <= k < panel.agents@.len() && panel.agents@[k].id
                == id,
            TargetEvent::Process { id, .. } => 0 <= k < panel.processes@.len()
                && panel.processes@[k].id == id,
        },
    ensures
        after.message matches Some(text) && text@ == preview_text(
            match event {
                TargetEvent::Agent { .. } => panel.agents@[k].orchestrator,
                TargetEvent::Process { .. } => panel.processes@[k].orchestrator,
            },
        ),
        after.dry_run,
        after.storage == panel.storage,
{
    match event {
        TargetEvent::Agent { id, .. } => {
            lemma_agent_found(panel.agents@, k);
        },
        TargetEvent::Process { id, .. } => {
            lemma_process_found(panel.processes@, k);
        },
    }
}

/// A removal that storage carried out is one from the panel, of that item alone; one that
/// it refused, or that a dry run refused, changes nothing.
pub proof fn removed_items_are_forgotten(
    panel: PanelData,
    target: TrackedId,
    removed: Result<(), Error>,
    after: PanelData,
    r: Result<(), Error>,
)
    requires
        panel.delete_follows(target, removed, after, r),
    ensures
        panel.dry_run ==> after == panel && r == Err::<(), Error>(Error::ReadOnly),
        !panel.dry_run ==> (removed matches Err(error) ==> after == panel && r == Err::<
            (),
            Error,
        >(error)),
        !panel.dry_run && removed is Ok ==> r is Ok && after.message is None,
        target is Agent ==> after.processes@ == panel.processes@,
        target is Process ==> after.agents@ == panel.agents@,
{
}

/// What the terminal is told of data that was read again: the new picture without an
/// error, or the error with the data as they were.
pub proof fn refreshes_are_told(
    worker: Worker,
    result: Result<(), Error>,
    after: Worker,
    r: PanelEvent,
)
    requires
        worker.reports(result, after, r),
    ensures
        result is Ok <==> r is Updated,
        result is Ok ==> after.data.message is None,
        r matches PanelEvent::Updated(picture) ==> picture.message is None && picture.selected
            == worker.data.selected && picture.show_history == worker.data.show_history,
        result matches Err(error) ==> (r matches PanelEvent::Failed(text) && text@
            == error.wording()) && (after.data.message matches Some(text) && text@
            == error.wording()),
        after.data.agents == worker.data.agents && after.data.processes == worker.data.processes,
{
}

/// A panel cannot be loaded where one of its questions failed, with the error of the
/// first; and it can where none failed and its lists are free of contradictions.
pub proof fn loading_fails_with_the_first_error(
    latest_agent: Result<Option<i64>, Error>,
    latest_process: Result<Option<i64>, Error>,
    agents: Result<Vec<AgentRun>, Error>,
    processes: Result<Vec<ProcessRun>, Error>,
)
    ensures
        latest_agent matches Err(error) ==> load_fault(
            latest_agent,
            latest_process,
            agents,
            processes,
        ) == Some(error@),
        latest_agent is Ok ==> (latest_process matches Err(error) ==> load_fault(
            latest_agent,
            latest_process,
            agents,
            processes,
        ) == Some(error@)),
        latest_agent is Ok && latest_process is Ok ==> (agents matches Err(error) ==> load_fault(
            latest_agent,
            latest_process,
            agents,
            processes,
        ) == Some(error@)),
        latest_agent is Ok && latest_process is Ok && agents is Ok ==> (processes matches Err(error)
            ==> load_fault(latest_agent, latest_process, agents, processes) == Some(error@)),
        latest_agent is Ok && latest_process is Ok && agents is Ok && processes is Ok ==> (
        load_fault(latest_agent, latest_process, agents, processes) is None <==> merged_agents(
            Seq::empty(),
            agents->Ok_0@,
        ).1 is Ok && merged_processes(Seq::empty(), processes->Ok_0@).1 is Ok),
{
}

/// Texts that are refused, and data that are rejected, are so with their whole wording.
pub proof fn refusals_carry_their_wording(error: Error, text: Seq<char>)
    ensures
        error.is_invalid(text) <==> error@ == ErrorView::Invalid(text),
        error.is_corrupt(text) <==> error@ == ErrorView::CorruptData(text),
        error.is_invalid(text) ==> error.wording() == text,
        plain(Err::<(), Error>(error)) == Err::<(), ErrorView>(error@),
        plain(Ok::<(), Error>(())) == Ok::<(), ErrorView>(()),
{
    if error@ == ErrorView::Invalid(text) {
        assert(error is Invalid);
    }
    if error@ == ErrorView::CorruptData(text) {
        assert(error is CorruptData);
    }
}

} // verus!
