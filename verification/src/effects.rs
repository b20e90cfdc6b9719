//! What whole transactions do to the tables.
//!
//! All of it rests on `executed`, which states what SQLite does with each statement.

use vstd::pervasive::arbitrary;
use vstd::prelude::*;

use crate::agent::{permitted, reachable, status_code, AgentRun, AgentStatus};
use crate::error::{reported, ErrorView};
use crate::process::{ProcessRun, ProcessState};
use crate::rows::{agent_fault, agent_of, process_fault, process_of};
use crate::storage::{Job, Storage};
use crate::tables::{
    agent_row, check_failure, executed, kind_accepted, lemma_reference_count, new_agent,
    new_process, process_row, readable, sound_agents_can_be_read, went_on, AgentRecord,
    ProcessRecord, ShellRecord, Tables, TmuxRecord,
};
use crate::text::blank;
use crate::time::{millis_of, moment, Timestamp};
use crate::transaction::{new_host, opening, starts_item, ActionView, Outcome};

verus! {

/// What comes of an action while all statements are answered by the tables at
/// the given time.
pub open spec fn carried_out(t: Tables, action: ActionView, now: Timestamp, steps: nat) -> (
    Tables,
    Result<Outcome, ErrorView>,
)
    decreases steps,
{
    match action {
        ActionView::Commit(outcome) => (t, Ok(outcome)),
        ActionView::Abort(error) => (t, Err(error)),
        ActionView::Run { statement, rest } => if steps == 0 {
            (t, arbitrary())
        } else {
            let (changed, answer) = executed(t, statement);
            carried_out(changed, rest.followed(answer, now), now, (steps - 1) as nat)
        },
    }
}

/// What comes of a whole transaction. One that does not succeed is rolled back.
pub open spec fn performed(t: Tables, storage: Storage, job: Job, now: Timestamp) -> (
    Tables,
    Result<Outcome, ErrorView>,
) {
    let (changed, r) = carried_out(t, opening(storage, job), now, 4);
    if r is Ok {
        (changed, r)
    } else {
        (t, r)
    }
}

/// The tables with a new host, and its number.
pub open spec fn with_host(t: Tables, cwd: String, pane: Option<String>) -> (Tables, i64) {
    match pane {
        None => {
            let id = (t.last_shell + 1) as i64;
            (
                Tables { shells: t.shells.insert(id, ShellRecord { cwd }), last_shell: id, ..t },
                id,
            )
        },
        Some(pane) => {
            let id = (t.last_tmux + 1) as i64;
            (
                Tables { tmux: t.tmux.insert(id, TmuxRecord { cwd, pane }), last_tmux: id, ..t },
                id,
            )
        },
    }
}

/// The tables with another state of a command.
pub open spec fn with_process(t: Tables, id: i64, row: ProcessRecord) -> Tables {
    Tables { processes: t.processes.insert(id, row), ..t }
}

/// The tables with another status of an agent.
pub open spec fn with_agent(t: Tables, id: i64, status: AgentStatus, acknowledged: bool) -> Tables {
    Tables {
        agents: t.agents.insert(
            id,
            AgentRecord {
                status: status_code(status),
                acked: if acknowledged {
                    1
                } else {
                    0
                },
                ..t.agents[id]
            },
        ),
        ..t
    }
}

/// The tables without a host, unless an item refers to it.
pub open spec fn without_unused_host(t: Tables, tmux: bool, id: i64) -> Tables {
    if t.referred(tmux, id) {
        t
    } else if tmux {
        Tables { tmux: t.tmux.remove(id), ..t }
    } else {
        Tables { shells: t.shells.remove(id), ..t }
    }
}

/// What a job does to the tables, and its outcome.
pub open spec fn effect(t: Tables, storage: Storage, job: Job, now: Timestamp) -> (
    Tables,
    Result<Outcome, ErrorView>,
) {
    let millis = millis_of(now) as i64;
    match job {
        Job::StartProcess { label, cwd, pane } => if !starts_item(job) {
            (t, Err(ErrorView::Invalid("tmux pane is empty"@)))
        } else {
            let (hosted, host) = with_host(t, cwd, pane);
            let id = (t.last_process + 1) as i64;
            (
                Tables {
                    processes: t.processes.insert(id, new_process(label, millis, pane is Some, host)),
                    last_process: id,
                    ..hosted
                },
                Ok(
                    Outcome::Started(
                        ProcessRun {
                            id,
                            label,
                            started_at: moment(millis as int),
                            state: ProcessState::Running,
                            orchestrator: new_host(storage, host, cwd, pane),
                            storage,
                        },
                    ),
                ),
            )
        },
        Job::CreateAgent { kind, cwd, pane } => if !starts_item(job) {
            (t, Err(ErrorView::Invalid("tmux pane is empty"@)))
        } else if !kind_accepted(kind@) {
            (t, Err(reported(check_failure())))
        } else {
            let (hosted, host) = with_host(t, cwd, pane);
            let id = (t.last_agent + 1) as i64;
            (
                Tables {
                    agents: t.agents.insert(id, new_agent(kind, millis, pane is Some, host)),
                    last_agent: id,
                    ..hosted
                },
                Ok(
                    Outcome::Registered(
                        AgentRun {
                            id,
                            kind,
                            started_at: moment(millis as int),
                            status: AgentStatus::Idle,
                            acknowledged: false,
                            orchestrator: new_host(storage, host, cwd, pane),
                            storage,
                        },
                    ),
                ),
            )
        },
        Job::FinishProcess { id, exit_status } => if !t.processes.contains_key(id) {
            (t, Err(ErrorView::NotFound(id)))
        } else {
            match t.processes[id].state() {
                ProcessState::Running => (
                    with_process(
                        t,
                        id,
                        ProcessRecord {
                            running: 0,
                            finished: 1,
                            acked: 0,
                            finished_at: Some(millis),
                            exit_status: Some(exit_status as i64),
                            ..t.processes[id]
                        },
                    ),
                    Ok(
                        Outcome::State(
                            ProcessState::Finished {
                                finished_at: moment(millis as int),
                                exit_status,
                            },
                        ),
                    ),
                ),
                ProcessState::Finished { .. } => (t, Err(ErrorView::AlreadyFinished(id))),
                ProcessState::Acknowledged { .. } => (t, Err(ErrorView::AlreadyAcknowledged(id))),
            }
        },
        Job::AcknowledgeProcess { id } => if !t.processes.contains_key(id) {
            (t, Err(ErrorView::NotFound(id)))
        } else {
            match t.processes[id].state() {
                ProcessState::Running => (t, Err(ErrorView::StillRunning(id))),
                ProcessState::Finished { finished_at, exit_status } => (
                    with_process(
                        t,
                        id,
                        ProcessRecord { finished: 0, acked: 1, ..t.processes[id] },
                    ),
                    Ok(Outcome::State(ProcessState::Acknowledged { finished_at, exit_status })),
                ),
                ProcessState::Acknowledged { .. } => (
                    t,
                    Ok(Outcome::State(t.processes[id].state())),
                ),
            }
        },
        Job::SetStatusAgent { id, status } => if !t.agents.contains_key(id) {
            (t, Err(ErrorView::AgentNotFound(id)))
        } else {
            let (current, acknowledged) = t.agents[id].state();
            if current == status {
                (t, Ok(Outcome::AgentState { status, acknowledged }))
            } else if !permitted(current, status) {
                (t, Err(ErrorView::InvalidAgentTransition { id, from: current, to: status }))
            } else {
                (
                    with_agent(t, id, status, false),
                    Ok(Outcome::AgentState { status, acknowledged: false }),
                )
            }
        },
        Job::AcknowledgeAgent { id } => if !t.agents.contains_key(id) {
            (t, Err(ErrorView::AgentNotFound(id)))
        } else if t.agents[id].state().0 != AgentStatus::Done {
            (t, Err(ErrorView::AgentNotDone(id)))
        } else {
            (
                with_agent(t, id, AgentStatus::Done, true),
                Ok(Outcome::AgentState { status: AgentStatus::Done, acknowledged: true }),
            )
        },
        Job::AcknowledgeAgentIfDone { id } => if !t.agents.contains_key(id) {
            (t, Err(ErrorView::AgentNotFound(id)))
        } else if t.agents[id].state().0 != AgentStatus::Done {
            (
                t,
                Ok(
                    Outcome::AgentState {
                        status: t.agents[id].state().0,
                        acknowledged: t.agents[id].state().1,
                    },
                ),
            )
        } else {
            (
                with_agent(t, id, AgentStatus::Done, true),
                Ok(Outcome::AgentState { status: AgentStatus::Done, acknowledged: true }),
            )
        },
        Job::DeleteProcess { id } => if !t.processes.contains_key(id) {
            (t, Err(ErrorView::NotFound(id)))
        } else {
            let row = t.processes[id];
            (
                without_unused_host(
                    Tables { processes: t.processes.remove(id), ..t },
                    row.tmux == 1,
                    row.orchestrator_id,
                ),
                Ok(Outcome::Deleted),
            )
        },
        Job::DeleteAgent { id } => if !t.agents.contains_key(id) {
            (t, Err(ErrorView::AgentNotFound(id)))
        } else {
            let row = t.agents[id];
            (
                without_unused_host(
                    Tables { agents: t.agents.remove(id), ..t },
                    row.tmux == 1,
                    row.orchestrator_id,
                ),
                Ok(Outcome::Deleted),
            )
        },
    }
}

/// The statements of a transaction, and the decisions between them, do exactly
/// what the job is for.
pub proof fn transactions_take_effect(t: Tables, storage: Storage, job: Job, now: Timestamp)
    requires
        t.wf(),
        t.has_room(job),
    ensures
        performed(t, storage, job, now) == effect(t, storage, job, now),
{
    reveal_with_fuel(carried_out, 6);
    match job {
        Job::DeleteProcess { id } => {
            if t.processes.contains_key(id) {
                let row = t.processes[id];
                let rest = Tables { processes: t.processes.remove(id), ..t };
                lemma_reference_count(rest, row.tmux == 1, row.orchestrator_id);
            }
        },
        Job::DeleteAgent { id } => {
            if t.agents.contains_key(id) {
                let row = t.agents[id];
                let rest = Tables { agents: t.agents.remove(id), ..t };
                lemma_reference_count(rest, row.tmux == 1, row.orchestrator_id);
            }
        },
        Job::AcknowledgeAgent { id } => {
            lemma_acknowledged_again(t, id);
        },
        Job::AcknowledgeAgentIfDone { id } => {
            lemma_acknowledged_again(t, id);
        },
        _ => {},
    }
}

/// Acknowledging an acknowledged agent leaves its row as it is.
proof fn lemma_acknowledged_again(t: Tables, id: i64)
    requires
        t.wf(),
    ensures
        t.agents.contains_key(id) && t.agents[id].state() == (AgentStatus::Done, true)
            ==> with_agent(t, id, AgentStatus::Done, true) == t,
{
    if t.agents.contains_key(id) && t.agents[id].state() == (AgentStatus::Done, true) {
        assert(t.agents[id].status == 4 && t.agents[id].acked == 1);
        assert(with_agent(t, id, AgentStatus::Done, true).agents =~= t.agents);
    }
}

/// A job that is refused changes nothing.
pub proof fn refused_jobs_change_nothing(t: Tables, storage: Storage, job: Job, now: Timestamp)
    requires
        effect(t, storage, job, now).1 is Err,
    ensures
        effect(t, storage, job, now).0 == t,
{
}

/// Whether a job asks for something that its item can be.
pub open spec fn meaningful(job: Job) -> bool {
    match job {
        Job::StartProcess { label, .. } => label@.len() > 0,
        Job::CreateAgent { kind, .. } => !blank(kind@),
        _ => true,
    }
}

/// Each job keeps the tables sound.
pub proof fn jobs_keep_tables_sound(t: Tables, storage: Storage, job: Job, now: Timestamp)
    requires
        t.wf(),
        t.has_room(job),
        meaningful(job),
    ensures
        effect(t, storage, job, now).0.wf(),
{
    let after = effect(t, storage, job, now).0;
    assert forall|id: i64| #[trigger] after.processes.contains_key(id) implies after.sound_process(
        id,
    ) by {
        if t.processes.contains_key(id) {
            assert(t.sound_process(id));
            lemma_host_kept(t, storage, job, now, id, true);
        }
    }
    assert forall|id: i64| #[trigger] after.agents.contains_key(id) implies after.sound_agent(
        id,
    ) by {
        if t.agents.contains_key(id) {
            assert(t.sound_agent(id));
            lemma_host_kept(t, storage, job, now, id, false);
        }
    }
}

/// The host of an item that stays is not removed.
proof fn lemma_host_kept(
    t: Tables,
    storage: Storage,
    job: Job,
    now: Timestamp,
    id: i64,
    process: bool,
)
    requires
        t.wf(),
        process ==> t.processes.contains_key(id) && effect(
            t,
            storage,
            job,
            now,
        ).0.processes.contains_key(id),
        !process ==> t.agents.contains_key(id) && effect(
            t,
            storage,
            job,
            now,
        ).0.agents.contains_key(id),
    ensures
        process ==> effect(t, storage, job, now).0.has_host(
            t.processes[id].shell,
            t.processes[id].tmux,
            t.processes[id].orchestrator_id,
        ),
        !process ==> effect(t, storage, job, now).0.has_host(
            t.agents[id].shell,
            t.agents[id].tmux,
            t.agents[id].orchestrator_id,
        ),
{
    if process {
        assert(t.sound_process(id));
    } else {
        assert(t.sound_agent(id));
    }
    match job {
        Job::DeleteProcess { id: gone } => {
            let rest = Tables { processes: t.processes.remove(gone), ..t };
            assert(process ==> rest.processes.contains_key(id));
            assert(!process ==> rest.agents.contains_key(id));
        },
        Job::DeleteAgent { id: gone } => {
            let rest = Tables { agents: t.agents.remove(gone), ..t };
            assert(process ==> rest.processes.contains_key(id));
            assert(!process ==> rest.agents.contains_key(id));
        },
        _ => {},
    }
}

/// A host goes with the last item that was started in it: each job leaves only
/// hosts that some item refers to.
pub proof fn jobs_leave_no_orphans(t: Tables, storage: Storage, job: Job, now: Timestamp)
    requires
        t.wf(),
        t.has_room(job),
        t.no_orphans(),
    ensures
        effect(t, storage, job, now).0.no_orphans(),
{
    let after = effect(t, storage, job, now).0;
    assert forall|id: i64| #[trigger] after.shells.contains_key(id) implies after.referred(
        false,
        id,
    ) by {
        lemma_still_referred(t, storage, job, now, false, id);
    }
    assert forall|id: i64| #[trigger] after.tmux.contains_key(id) implies after.referred(
        true,
        id,
    ) by {
        lemma_still_referred(t, storage, job, now, true, id);
    }
}

proof fn lemma_still_referred(
    t: Tables,
    storage: Storage,
    job: Job,
    now: Timestamp,
    tmux: bool,
    id: i64,
)
    requires
        t.wf(),
        t.has_room(job),
        t.no_orphans(),
        !tmux ==> effect(t, storage, job, now).0.shells.contains_key(id),
        tmux ==> effect(t, storage, job, now).0.tmux.contains_key(id),
    ensures
        effect(t, storage, job, now).0.referred(tmux, id),
{
    let after = effect(t, storage, job, now).0;
    let known = if tmux {
        t.tmux.contains_key(id)
    } else {
        t.shells.contains_key(id)
    };
    if !known {
        match job {
            Job::StartProcess { .. } => {
                let new = (t.last_process + 1) as i64;
                assert(after.processes.contains_key(new) && after.processes[new].refers_to(
                    tmux,
                    id,
                ));
            },
            Job::CreateAgent { .. } => {
                let new = (t.last_agent + 1) as i64;
                assert(after.agents.contains_key(new) && after.agents[new].refers_to(tmux, id));
            },
            _ => {},
        }
    } else {
        assert(t.referred(tmux, id));
        if exists|p: i64| #[trigger]
            t.processes.contains_key(p) && t.processes[p].refers_to(tmux, id) {
            let p = choose|p: i64| #[trigger]
                t.processes.contains_key(p) && t.processes[p].refers_to(tmux, id);
            assert(t.sound_process(p));
            match job {
                Job::DeleteProcess { id: gone } => {
                    let rest = Tables { processes: t.processes.remove(gone), ..t };
                    if gone == p {
                        assert(rest.referred(tmux, id));
                        lemma_referred_kept(
                            rest,
                            t.processes[p].tmux == 1,
                            t.processes[p].orchestrator_id,
                            tmux,
                            id,
                        );
                    } else {
                        assert(after.processes.contains_key(p));
                    }
                },
                _ => {
                    assert(after.processes.contains_key(p) && after.processes[p].refers_to(
                        tmux,
                        id,
                    ));
                },
            }
        } else {
            let a = choose|a: i64| #[trigger]
                t.agents.contains_key(a) && t.agents[a].refers_to(tmux, id);
            assert(t.sound_agent(a));
            match job {
                Job::DeleteAgent { id: gone } => {
                    let rest = Tables { agents: t.agents.remove(gone), ..t };
                    if gone == a {
                        assert(rest.referred(tmux, id));
                        lemma_referred_kept(
                            rest,
                            t.agents[a].tmux == 1,
                            t.agents[a].orchestrator_id,
                            tmux,
                            id,
                        );
                    } else {
                        assert(after.agents.contains_key(a));
                    }
                },
                _ => {
                    assert(after.agents.contains_key(a) && after.agents[a].refers_to(tmux, id));
                },
            }
        }
    }
}

/// Removing a host removes no reference.
proof fn lemma_referred_kept(t: Tables, tmux: bool, id: i64, other: bool, other_id: i64)
    requires
        t.referred(other, other_id),
    ensures
        without_unused_host(t, tmux, id).referred(other, other_id),
{
    let after = without_unused_host(t, tmux, id);
    assert(after.processes == t.processes && after.agents == t.agents);
    if exists|p: i64| #[trigger]
        t.processes.contains_key(p) && t.processes[p].refers_to(other, other_id) {
        let p = choose|p: i64| #[trigger]
            t.processes.contains_key(p) && t.processes[p].refers_to(other, other_id);
        assert(after.processes.contains_key(p));
    } else {
        let a = choose|a: i64| #[trigger]
            t.agents.contains_key(a) && t.agents[a].refers_to(other, other_id);
        assert(after.agents.contains_key(a));
    }
}

/// A started command reads back as it was handed out.
pub proof fn started_process_reads_back(
    t: Tables,
    storage: Storage,
    label: String,
    cwd: String,
    pane: Option<String>,
    now: Timestamp,
)
    requires
        t.wf(),
        t.has_room(Job::StartProcess { label, cwd, pane }),
        label@.len() > 0,
        starts_item(Job::StartProcess { label, cwd, pane }),
    ensures
        ({
            let (after, r) = effect(t, storage, Job::StartProcess { label, cwd, pane }, now);
            r matches Ok(Outcome::Started(run)) && after.processes.contains_key(run.id)
                && process_fault(process_row(after, run.id)) is None && process_of(
                process_row(after, run.id),
                storage,
            ) == run
        }),
{
}

/// A registered agent reads back as it was handed out.
pub proof fn registered_agent_reads_back(
    t: Tables,
    storage: Storage,
    kind: String,
    cwd: String,
    pane: Option<String>,
    now: Timestamp,
)
    requires
        t.wf(),
        t.has_room(Job::CreateAgent { kind, cwd, pane }),
        !blank(kind@),
        kind_accepted(kind@),
        starts_item(Job::CreateAgent { kind, cwd, pane }),
    ensures
        ({
            let (after, r) = effect(t, storage, Job::CreateAgent { kind, cwd, pane }, now);
            r matches Ok(Outcome::Registered(run)) && after.agents.contains_key(run.id)
                && agent_fault(agent_row(after, run.id)) is None && agent_of(
                agent_row(after, run.id),
                storage,
            ) == run
        }),
{
}

/// A new item gets a number that no item of its table ever had.
pub proof fn numbers_are_never_used_again(t: Tables, storage: Storage, job: Job, now: Timestamp)
    requires
        t.wf(),
        t.has_room(job),
    ensures
        ({
            let (after, r) = effect(t, storage, job, now);
            &&& t.last_process <= after.last_process
            &&& t.last_agent <= after.last_agent
            &&& r matches Ok(Outcome::Started(run)) ==> t.last_process < run.id
                && after.last_process == run.id && !t.processes.contains_key(run.id)
            &&& r matches Ok(Outcome::Registered(run)) ==> t.last_agent < run.id
                && after.last_agent == run.id && !t.agents.contains_key(run.id)
        }),
{
}

/// Each job lets items live on: none goes back in its life, or gets a number that
/// another item had.
pub proof fn jobs_let_items_live_on(t: Tables, storage: Storage, job: Job, now: Timestamp)
    requires
        t.wf(),
        t.has_room(job),
    ensures
        effect(t, storage, job, now).0.continues(t),
{
    let after = effect(t, storage, job, now).0;
    assert forall|id: i64| #[trigger]
        after.processes.contains_key(id) && id
            <= t.last_process implies t.processes.contains_key(id) && went_on(
        t.processes[id].state(),
        after.processes[id].state(),
    ) by {
        assert(t.sound_process(id));
    }
    assert forall|id: i64| #[trigger]
        after.agents.contains_key(id) && id <= t.last_agent implies t.agents.contains_key(id)
        && reachable(t.agents[id].state().0, after.agents[id].state().0) by {
        assert(t.sound_agent(id));
    }
}

/// What a job reports of an item is what is stored of it afterwards.
pub proof fn reported_states_are_stored(t: Tables, storage: Storage, job: Job, now: Timestamp)
    requires
        t.wf(),
        t.has_room(job),
    ensures
        ({
            let (after, r) = effect(t, storage, job, now);
            &&& r matches Ok(Outcome::State(state)) ==> match job {
                Job::FinishProcess { id, .. } => after.processes.contains_key(id)
                    && after.processes[id].state() == state && state is Finished,
                Job::AcknowledgeProcess { id } => after.processes.contains_key(id)
                    && after.processes[id].state() == state && state is Acknowledged,
                _ => false,
            }
            &&& r matches Ok(Outcome::AgentState { status, acknowledged }) ==> match job {
                Job::SetStatusAgent { id, status: wanted } => after.agents.contains_key(id)
                    && after.agents[id].state() == (status, acknowledged) && status == wanted,
                Job::AcknowledgeAgent { id } => after.agents.contains_key(id)
                    && after.agents[id].state() == (status, acknowledged) && status
                    == AgentStatus::Done && acknowledged,
                Job::AcknowledgeAgentIfDone { id } => after.agents.contains_key(id)
                    && after.agents[id].state() == (status, acknowledged) && (status
                    == AgentStatus::Done ==> acknowledged),
                _ => false,
            }
        }),
{
    match job {
        Job::FinishProcess { id, .. } => {
            if t.processes.contains_key(id) {
                assert(t.sound_process(id));
            }
        },
        Job::AcknowledgeProcess { id } => {
            if t.processes.contains_key(id) {
                assert(t.sound_process(id));
            }
        },
        _ => {},
    }
}

/// A command that is still readable once it has ended, as long as the clock was
/// not set back behind its start.
pub proof fn ended_process_reads_back(
    t: Tables,
    storage: Storage,
    id: i64,
    exit_status: u8,
    now: Timestamp,
)
    requires
        t.wf(),
        t.processes.contains_key(id),
        t.processes[id].state() is Running,
        t.processes[id].started_at <= millis_of(now),
    ensures
        ({
            let (after, r) = effect(t, storage, Job::FinishProcess { id, exit_status }, now);
            r matches Ok(Outcome::State(state)) && process_fault(process_row(after, id)) is None
                && process_of(process_row(after, id), storage) == (ProcessRun {
                state,
                ..process_of(process_row(t, id), storage)
            })
        }),
{
    assert(t.sound_process(id));
}

/// The first end of a command counts: a second one is refused, whatever its exit
/// status and its time.
pub proof fn first_completion_wins(
    t: Tables,
    storage: Storage,
    id: i64,
    first: u8,
    second: u8,
    now: Timestamp,
    later: Timestamp,
)
    requires
        t.wf(),
        effect(t, storage, Job::FinishProcess { id, exit_status: first }, now).1 is Ok,
    ensures
        ({
            let after = effect(t, storage, Job::FinishProcess { id, exit_status: first }, now).0;
            effect(after, storage, Job::FinishProcess { id, exit_status: second }, later) == (
                after,
                Err::<Outcome, ErrorView>(ErrorView::AlreadyFinished(id)),
            )
        }),
{
}

/// Acknowledging a command again succeeds, says the same and changes nothing.
pub proof fn acknowledging_a_process_is_idempotent(
    t: Tables,
    storage: Storage,
    id: i64,
    now: Timestamp,
    later: Timestamp,
)
    requires
        t.wf(),
        effect(t, storage, Job::AcknowledgeProcess { id }, now).1 is Ok,
    ensures
        ({
            let (after, r) = effect(t, storage, Job::AcknowledgeProcess { id }, now);
            effect(after, storage, Job::AcknowledgeProcess { id }, later) == (after, r)
        }),
{
    assert(t.sound_process(id));
}

/// Acknowledging an agent again succeeds, says the same and changes nothing.
pub proof fn acknowledging_an_agent_is_idempotent(
    t: Tables,
    storage: Storage,
    id: i64,
    now: Timestamp,
    later: Timestamp,
)
    requires
        t.wf(),
        effect(t, storage, Job::AcknowledgeAgent { id }, now).1 is Ok,
    ensures
        ({
            let (after, r) = effect(t, storage, Job::AcknowledgeAgent { id }, now);
            effect(after, storage, Job::AcknowledgeAgent { id }, later) == (after, r)
        }),
{
    let after = effect(t, storage, Job::AcknowledgeAgent { id }, now).0;
    assert(after.agents.insert(id, after.agents[id]) =~= after.agents);
}

/// Reporting the current status again succeeds and changes nothing, not even
/// the acknowledgment.
pub proof fn repeated_status_changes_nothing(t: Tables, storage: Storage, id: i64, now: Timestamp)
    requires
        t.wf(),
        t.agents.contains_key(id),
    ensures
        ({
            let (status, acknowledged) = t.agents[id].state();
            effect(t, storage, Job::SetStatusAgent { id, status }, now) == (
                t,
                Ok::<Outcome, ErrorView>(Outcome::AgentState { status, acknowledged }),
            )
        }),
{
}

/// A real change of status leaves the agent unacknowledged.
pub proof fn changed_status_clears_acknowledgment(
    t: Tables,
    storage: Storage,
    id: i64,
    status: AgentStatus,
    now: Timestamp,
)
    requires
        t.wf(),
        t.agents.contains_key(id),
        permitted(t.agents[id].state().0, status),
        t.agents[id].state().0 != status,
    ensures
        ({
            let (after, r) = effect(t, storage, Job::SetStatusAgent { id, status }, now);
            r is Ok && after.agents[id].state() == (status, false)
        }),
{
}

/// A killed agent stays killed, whatever is reported of it.
pub proof fn killed_agents_stay_killed(t: Tables, storage: Storage, id: i64, job: Job, now: Timestamp)
    requires
        t.wf(),
        t.has_room(job),
        t.agents.contains_key(id),
        t.agents[id].state().0 == AgentStatus::Killed,
    ensures
        ({
            let after = effect(t, storage, job, now).0;
            after.agents.contains_key(id) ==> after.agents[id] == t.agents[id]
        }),
{
    assert(t.sound_agent(id));
}

/// Acknowledging an agent should it be done, and its start of new work: in
/// whichever order they come, the agent ends up working and unacknowledged.
pub proof fn new_work_wins_over_acknowledgment(
    t: Tables,
    storage: Storage,
    id: i64,
    now: Timestamp,
    later: Timestamp,
)
    requires
        t.wf(),
        t.agents.contains_key(id),
        t.agents[id].state().0 == AgentStatus::Done,
    ensures
        ({
            let working = Job::SetStatusAgent { id, status: AgentStatus::Working };
            let acknowledged = Job::AcknowledgeAgentIfDone { id };
            &&& effect(
                effect(t, storage, acknowledged, now).0,
                storage,
                working,
                later,
            ).0.agents[id].state() == (AgentStatus::Working, false)
            &&& effect(
                effect(t, storage, working, now).0,
                storage,
                acknowledged,
                later,
            ).0.agents[id].state() == (AgentStatus::Working, false)
        }),
{
}

/// The number of the command that a job is about.
pub open spec fn subject_process(job: Job) -> Option<i64> {
    match job {
        Job::FinishProcess { id, .. } => Some(id),
        Job::AcknowledgeProcess { id } => Some(id),
        Job::DeleteProcess { id } => Some(id),
        _ => None,
    }
}

/// The number of the agent that a job is about.
pub open spec fn subject_agent(job: Job) -> Option<i64> {
    match job {
        Job::SetStatusAgent { id, .. } => Some(id),
        Job::AcknowledgeAgent { id } => Some(id),
        Job::AcknowledgeAgentIfDone { id } => Some(id),
        Job::DeleteAgent { id } => Some(id),
        _ => None,
    }
}

/// A job changes no item but the one that it is about: all others read back as
/// before. Commands and agents may share numbers without being confused.
pub proof fn jobs_change_only_their_item(t: Tables, storage: Storage, job: Job, now: Timestamp)
    requires
        t.wf(),
        t.has_room(job),
    ensures
        ({
            let after = effect(t, storage, job, now).0;
            &&& forall|id: i64| #[trigger]
                t.processes.contains_key(id) && subject_process(job) != Some(id)
                    ==> after.processes.contains_key(id) && process_row(after, id) == process_row(
                    t,
                    id,
                )
            &&& forall|id: i64| #[trigger]
                t.agents.contains_key(id) && subject_agent(job) != Some(id)
                    ==> after.agents.contains_key(id) && agent_row(after, id) == agent_row(t, id)
        }),
{
    let after = effect(t, storage, job, now).0;
    assert forall|id: i64| #[trigger]
        t.processes.contains_key(id) && subject_process(job) != Some(
            id,
        ) implies after.processes.contains_key(id) && process_row(after, id) == process_row(
        t,
        id,
    ) by {
        assert(t.sound_process(id));
        assert(after.processes.contains_key(id));
        lemma_host_kept(t, storage, job, now, id, true);
    }
    assert forall|id: i64| #[trigger]
        t.agents.contains_key(id) && subject_agent(job) != Some(
            id,
        ) implies after.agents.contains_key(id) && agent_row(after, id) == agent_row(t, id) by {
        assert(t.sound_agent(id));
        assert(after.agents.contains_key(id));
        lemma_host_kept(t, storage, job, now, id, false);
    }
}

/// A removed command is gone, and with it its host where nothing else was
/// started in it.
pub proof fn deleted_process_is_gone(t: Tables, storage: Storage, id: i64, now: Timestamp)
    requires
        t.wf(),
        t.processes.contains_key(id),
    ensures
        ({
            let (after, r) = effect(t, storage, Job::DeleteProcess { id }, now);
            let row = t.processes[id];
            let tmux = row.tmux == 1;
            let host = row.orchestrator_id;
            &&& r is Ok
            &&& !after.processes.contains_key(id)
            &&& !after.referred(tmux, host) ==> !(if tmux {
                after.tmux.contains_key(host)
            } else {
                after.shells.contains_key(host)
            })
        }),
{
    let row = t.processes[id];
    let rest = Tables { processes: t.processes.remove(id), ..t };
    if rest.referred(row.tmux == 1, row.orchestrator_id) {
        lemma_referred_kept(
            rest,
            row.tmux == 1,
            row.orchestrator_id,
            row.tmux == 1,
            row.orchestrator_id,
        );
    }
}

/// A removed agent is gone, and with it its host where nothing else was started
/// in it.
pub proof fn deleted_agent_is_gone(t: Tables, storage: Storage, id: i64, now: Timestamp)
    requires
        t.wf(),
        t.agents.contains_key(id),
    ensures
        ({
            let (after, r) = effect(t, storage, Job::DeleteAgent { id }, now);
            let row = t.agents[id];
            let tmux = row.tmux == 1;
            let host = row.orchestrator_id;
            &&& r is Ok
            &&& !after.agents.contains_key(id)
            &&& !after.referred(tmux, host) ==> !(if tmux {
                after.tmux.contains_key(host)
            } else {
                after.shells.contains_key(host)
            })
        }),
{
    let row = t.agents[id];
    let rest = Tables { agents: t.agents.remove(id), ..t };
    if rest.referred(row.tmux == 1, row.orchestrator_id) {
        lemma_referred_kept(
            rest,
            row.tmux == 1,
            row.orchestrator_id,
            row.tmux == 1,
            row.orchestrator_id,
        );
    }
}

/// Whether the clock stands behind the start of a command that is to be ended.
pub open spec fn timely(t: Tables, job: Job, now: Timestamp) -> bool {
    job matches Job::FinishProcess { id, .. } ==> t.processes.contains_key(id)
        ==> t.processes[id].started_at <= millis_of(now)
}

/// Whatever is written, all items can still be read afterwards, as long as the
/// clock is not set back behind the start of a command.
pub proof fn jobs_keep_items_readable(t: Tables, storage: Storage, job: Job, now: Timestamp)
    requires
        t.wf(),
        t.has_room(job),
        meaningful(job),
        timely(t, job, now),
        readable(t),
    ensures
        readable(effect(t, storage, job, now).0),
{
    let after = effect(t, storage, job, now).0;
    jobs_keep_tables_sound(t, storage, job, now);
    jobs_change_only_their_item(t, storage, job, now);
    assert forall|id: i64| #[trigger] after.agents.contains_key(id) implies agent_fault(
        agent_row(after, id),
    ) is None by {
        sound_agents_can_be_read(after, id);
    }
    assert forall|id: i64| #[trigger] after.processes.contains_key(id) implies process_fault(
        process_row(after, id),
    ) is None by {
        if t.processes.contains_key(id) {
            assert(process_fault(process_row(t, id)) is None);
            assert(t.sound_process(id));
            assert(after.sound_process(id));
        }
    }
}

} // verus!
