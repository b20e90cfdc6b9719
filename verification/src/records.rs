//! What is written and read: the statements, and what jobs make of the rows.

use vstd::prelude::*;

use crate::agent::{permitted, reachable, status_code, AgentStatus};
use crate::effects::effect;
use crate::error::{reported, ErrorView, Failure};
use crate::orchestrator::Orchestrator;
use crate::process::{ProcessRun, ProcessState};
use crate::query::{AgentQuery, ProcessQuery};
use crate::rows::{agent_of, lifecycle, process_of, status_of};
use crate::schema::{collection_of, schema_fault, Collection, COLLECT_BATCH};
use crate::storage::{range_fault, Job, Storage};
use crate::tables::{
    agent_row, process_row, AgentRecord, ProcessRecord, ShellRecord, Tables, TmuxRecord,
};
use crate::text::signed;
use crate::time::{millis_of, moment, Timestamp};
use crate::transaction::{ActionView, Answer, Outcome, Phase, Statement, Table, Transaction, Value};

verus! {

/// The statements that change and read single rows: each is about the row with the
/// number that it is given, and a change names the state that it starts from.
pub proof fn statements_are_about_their_row(statement: Statement)
    ensures
        statement.text() == match statement {
            Statement::InsertShell { .. } => "INSERT INTO shells(cwd) VALUES(?1)"@,
            Statement::InsertTmux { .. } => "INSERT INTO tmux(cwd,pane) VALUES(?1,?2)"@,
            Statement::InsertProcess { .. } =>
            "INSERT INTO processes(label,started_at,running,finished,acked,shell,tmux,orchestrator_id) VALUES(?1,?2,1,0,0,?3,?4,?5)"@,
            Statement::InsertAgent { .. } =>
            "INSERT INTO agents(kind,started_at,status,acked,shell,tmux,orchestrator_id) VALUES(?1,?2,1,0,?3,?4,?5)"@,
            Statement::ReadState { .. } =>
            "SELECT running,finished,acked,finished_at,exit_status FROM processes WHERE id=?1"@,
            Statement::ReadAgentState { .. } => "SELECT status,acked FROM agents WHERE id=?1"@,
            Statement::FinishProcess { .. } =>
            "UPDATE processes SET running=0,finished=1,acked=0,finished_at=?2,exit_status=?3 WHERE id=?1 AND running=1"@,
            Statement::AcknowledgeProcess { .. } =>
            "UPDATE processes SET finished=0,acked=1 WHERE id=?1 AND finished=1"@,
            Statement::SetStatus { .. } =>
            "UPDATE agents SET status=?2,acked=0 WHERE id=?1 AND status=?3 AND acked=?4"@,
            Statement::AcknowledgeAgent { .. } =>
            "UPDATE agents SET acked=1 WHERE id=?1 AND status=4 AND acked=0"@,
            Statement::ReadReference { table: Table::Processes, .. } =>
            "SELECT shell,tmux,orchestrator_id FROM processes WHERE id=?1"@,
            Statement::ReadReference { table: Table::Agents, .. } =>
            "SELECT shell,tmux,orchestrator_id FROM agents WHERE id=?1"@,
            Statement::DeleteRow { table: Table::Processes, .. } =>
            "DELETE FROM processes WHERE id=?1"@,
            Statement::DeleteRow { table: Table::Agents, .. } => "DELETE FROM agents WHERE id=?1"@,
            Statement::CountReferences { tmux: false, .. } =>
            "SELECT (SELECT count(*) FROM processes WHERE shell=1 AND orchestrator_id=?1) + (SELECT count(*) FROM agents WHERE shell=1 AND orchestrator_id=?1)"@,
            Statement::CountReferences { tmux: true, .. } =>
            "SELECT (SELECT count(*) FROM processes WHERE tmux=1 AND orchestrator_id=?1) + (SELECT count(*) FROM agents WHERE tmux=1 AND orchestrator_id=?1)"@,
            Statement::DeleteHost { tmux: false, .. } => "DELETE FROM shells WHERE id=?1"@,
            Statement::DeleteHost { tmux: true, .. } => "DELETE FROM tmux WHERE id=?1"@,
        },
{
}

/// The values that statements are given stand in the order of their parameters.
pub proof fn statements_are_given_their_values(statement: Statement)
    ensures
        match statement {
            Statement::InsertShell { cwd } => statement.values() == seq![Value::Text(cwd)],
            Statement::InsertTmux { cwd, pane } => statement.values() == seq![
                Value::Text(cwd),
                Value::Text(pane),
            ],
            Statement::InsertProcess { label, started_at, tmux, orchestrator_id } => {
                let values = statement.values();
                &&& values.len() == 5
                &&& values[0] == Value::Text(label)
                &&& values[1] == Value::Integer(started_at)
                &&& tmux ==> values[2] == Value::Integer(0) && values[3] == Value::Integer(1)
                &&& !tmux ==> values[2] == Value::Integer(1) && values[3] == Value::Integer(0)
                &&& values[4] == Value::Integer(orchestrator_id)
            },
            Statement::InsertAgent { kind, started_at, tmux, orchestrator_id } => {
                let values = statement.values();
                &&& values.len() == 5
                &&& values[0] == Value::Text(kind)
                &&& values[1] == Value::Integer(started_at)
                &&& tmux ==> values[2] == Value::Integer(0) && values[3] == Value::Integer(1)
                &&& !tmux ==> values[2] == Value::Integer(1) && values[3] == Value::Integer(0)
                &&& values[4] == Value::Integer(orchestrator_id)
            },
            Statement::FinishProcess { id, finished_at, exit_status } => {
                let values = statement.values();
                &&& values.len() == 3
                &&& values[0] == Value::Integer(id)
                &&& values[1] == Value::Integer(finished_at)
                &&& values[2] == Value::Integer(exit_status as i64)
            },
            Statement::SetStatus { id, next, current, acknowledged } => {
                let values = statement.values();
                &&& values.len() == 4
                &&& values[0] == Value::Integer(id)
                &&& values[1] == Value::Integer(status_code(next))
                &&& values[2] == Value::Integer(status_code(current))
                &&& acknowledged ==> values[3] == Value::Integer(1)
                &&& !acknowledged ==> values[3] == Value::Integer(0)
            },
            Statement::ReadState { id } => statement.values() == seq![Value::Integer(id)],
            Statement::ReadAgentState { id } => statement.values() == seq![Value::Integer(id)],
            Statement::AcknowledgeProcess { id } => statement.values() == seq![Value::Integer(id)],
            Statement::AcknowledgeAgent { id } => statement.values() == seq![Value::Integer(id)],
            Statement::ReadReference { id, .. } => statement.values() == seq![Value::Integer(id)],
            Statement::DeleteRow { id, .. } => statement.values() == seq![Value::Integer(id)],
            Statement::CountReferences { id, .. } => statement.values() == seq![
                Value::Integer(id),
            ],
            Statement::DeleteHost { id, .. } => statement.values() == seq![Value::Integer(id)],
        },
{
}

/// The queries: one item by its number, lists from the newest start to the oldest, and
/// ranges by number.
pub proof fn queries_ask_for_what_they_name(
    id: i64,
    after: i64,
    through: i64,
    limit: i64,
)
    ensures
        (ProcessQuery::One { id }).suffix() == "WHERE p.id=?1"@,
        (ProcessQuery::One { id }).values() == seq![id],
        ProcessQuery::Running.suffix()
            == "WHERE p.running=1 ORDER BY p.started_at DESC,p.id DESC"@,
        ProcessQuery::Unacked.suffix() == "WHERE p.acked=0 ORDER BY p.started_at DESC,p.id DESC"@,
        ProcessQuery::All.suffix() == "ORDER BY p.started_at DESC,p.id DESC"@,
        (ProcessQuery::Range { after, through, limit }).suffix()
            == "WHERE p.id>?1 AND p.id<=?2 ORDER BY p.id ASC LIMIT ?3"@,
        (ProcessQuery::Range { after, through, limit }).values() == seq![after, through, limit],
        (AgentQuery::One { id }).suffix() == "WHERE a.id=?1"@,
        (AgentQuery::One { id }).values() == seq![id],
        AgentQuery::Active.suffix()
            == "WHERE a.acked=0 AND a.status!=5 ORDER BY a.started_at DESC,a.id DESC"@,
        AgentQuery::Unkilled.suffix() == "WHERE a.status!=5 ORDER BY a.started_at DESC,a.id DESC"@,
        AgentQuery::All.suffix() == "ORDER BY a.started_at DESC,a.id DESC"@,
        (AgentQuery::Range { after, through, limit }).suffix()
            == "WHERE a.id>?1 AND a.id<=?2 ORDER BY a.id ASC LIMIT ?3"@,
        (AgentQuery::Range { after, through, limit }).values() == seq![after, through, limit],
        ProcessQuery::Running.values().len() == 0 && ProcessQuery::Unacked.values().len() == 0
            && ProcessQuery::All.values().len() == 0,
        AgentQuery::Active.values().len() == 0 && AgentQuery::Unkilled.values().len() == 0
            && AgentQuery::All.values().len() == 0,
{
}

/// The end of a running command is written with its exit status and the time, and
/// nothing else of it changes. One that has ended, or is not there, is refused.
pub proof fn ends_are_written_once(
    t: Tables,
    storage: Storage,
    id: i64,
    exit_status: u8,
    now: Timestamp,
)
    requires
        t.wf(),
    ensures
        ({
            let (after, r) = effect(t, storage, Job::FinishProcess { id, exit_status }, now);
            let row = t.processes[id];
            if !t.processes.contains_key(id) {
                r == Err::<Outcome, ErrorView>(ErrorView::NotFound(id)) && after == t
            } else if row.running == 1 {
                &&& r == Ok::<Outcome, ErrorView>(
                    Outcome::State(
                        ProcessState::Finished { finished_at: moment(millis_of(now)), exit_status },
                    ),
                )
                &&& after == (Tables {
                    processes: t.processes.insert(
                        id,
                        ProcessRecord {
                            running: 0,
                            finished: 1,
                            acked: 0,
                            finished_at: Some(millis_of(now) as i64),
                            exit_status: Some(exit_status as i64),
                            ..row
                        },
                    ),
                    ..t
                })
            } else if row.finished == 1 {
                r == Err::<Outcome, ErrorView>(ErrorView::AlreadyFinished(id)) && after == t
            } else {
                &&& row.acked == 1
                &&& r == Err::<Outcome, ErrorView>(ErrorView::AlreadyAcknowledged(id))
                &&& after == t
            }
        }),
{
    if t.processes.contains_key(id) {
        assert(t.sound_process(id));
    }
}

/// A command that has ended is acknowledged with the end that it had; one that was
/// acknowledged before stays as it is, and one that runs is refused.
pub proof fn acknowledgments_keep_the_end(t: Tables, storage: Storage, id: i64, now: Timestamp)
    requires
        t.wf(),
    ensures
        ({
            let (after, r) = effect(t, storage, Job::AcknowledgeProcess { id }, now);
            let row = t.processes[id];
            if !t.processes.contains_key(id) {
                r == Err::<Outcome, ErrorView>(ErrorView::NotFound(id)) && after == t
            } else if row.running == 1 {
                r == Err::<Outcome, ErrorView>(ErrorView::StillRunning(id)) && after == t
            } else {
                let told = Outcome::State(
                    ProcessState::Acknowledged {
                        finished_at: moment(row.finished_at->0 as int),
                        exit_status: row.exit_status->0 as u8,
                    },
                );
                &&& row.finished_at is Some && row.exit_status is Some
                &&& r == Ok::<Outcome, ErrorView>(told)
                &&& row.finished == 1 ==> after == (Tables {
                    processes: t.processes.insert(
                        id,
                        ProcessRecord { finished: 0, acked: 1, ..row },
                    ),
                    ..t
                })
                &&& row.finished != 1 ==> row.acked == 1 && after == t
            }
        }),
{
    if t.processes.contains_key(id) {
        assert(t.sound_process(id));
    }
}

/// A new command runs, has not ended, and refers to a new host with the given directory
/// and pane.
pub proof fn new_commands_run_in_a_new_host(
    t: Tables,
    storage: Storage,
    label: String,
    cwd: String,
    pane: Option<String>,
    now: Timestamp,
)
    requires
        t.wf(),
        t.has_room(Job::StartProcess { label, cwd, pane }),
    ensures
        ({
            let (after, r) = effect(t, storage, Job::StartProcess { label, cwd, pane }, now);
            let id = (t.last_process + 1) as i64;
            if pane matches Some(name) && name@.len() == 0 {
                r == Err::<Outcome, ErrorView>(ErrorView::Invalid("tmux pane is empty"@)) && after
                    == t
            } else {
                let row = after.processes[id];
                &&& r matches Ok(Outcome::Started(run)) && run.id == id && run.label == label
                    && run.state is Running && run.storage == storage && run.started_at == moment(
                    millis_of(now),
                )
                &&& !t.processes.contains_key(id) && after.processes.contains_key(id)
                &&& row.label == label && row.started_at == millis_of(now) && row.running == 1
                    && row.finished == 0 && row.acked == 0 && row.finished_at is None
                    && row.exit_status is None
                &&& match pane {
                    None => row.shell == 1 && row.tmux == 0 && !t.shells.contains_key(
                        row.orchestrator_id,
                    ) && after.shells.contains_key(row.orchestrator_id)
                        && after.shells[row.orchestrator_id] == (ShellRecord { cwd }),
                    Some(pane) => row.shell == 0 && row.tmux == 1 && !t.tmux.contains_key(
                        row.orchestrator_id,
                    ) && after.tmux.contains_key(row.orchestrator_id)
                        && after.tmux[row.orchestrator_id] == (TmuxRecord { cwd, pane }),
                }
                &&& after.processes == t.processes.insert(id, row) && after.agents == t.agents
            }
        }),
{
}

/// A new agent is idle and not acknowledged, and refers to a new host with the given
/// directory and pane.
pub proof fn new_agents_are_idle_in_a_new_host(
    t: Tables,
    storage: Storage,
    kind: String,
    cwd: String,
    pane: Option<String>,
    now: Timestamp,
)
    requires
        t.wf(),
        t.has_room(Job::CreateAgent { kind, cwd, pane }),
        kind@.len() > 0 && kind@[0] != ' ' && kind@[0] != '\0',
    ensures
        ({
            let (after, r) = effect(t, storage, Job::CreateAgent { kind, cwd, pane }, now);
            let id = (t.last_agent + 1) as i64;
            if pane matches Some(name) && name@.len() == 0 {
                r == Err::<Outcome, ErrorView>(ErrorView::Invalid("tmux pane is empty"@)) && after
                    == t
            } else {
                let row = after.agents[id];
                &&& r matches Ok(Outcome::Registered(run)) && run.id == id && run.kind == kind
                    && run.status == AgentStatus::Idle && !run.acknowledged && run.storage
                    == storage && run.started_at == moment(millis_of(now))
                &&& !t.agents.contains_key(id) && after.agents.contains_key(id)
                &&& row.kind == kind && row.started_at == millis_of(now) && row.status == 1
                    && row.acked == 0
                &&& match pane {
                    None => row.shell == 1 && row.tmux == 0 && !t.shells.contains_key(
                        row.orchestrator_id,
                    ) && after.shells.contains_key(row.orchestrator_id)
                        && after.shells[row.orchestrator_id] == (ShellRecord { cwd }),
                    Some(pane) => row.shell == 0 && row.tmux == 1 && !t.tmux.contains_key(
                        row.orchestrator_id,
                    ) && after.tmux.contains_key(row.orchestrator_id)
                        && after.tmux[row.orchestrator_id] == (TmuxRecord { cwd, pane }),
                }
                &&& after.agents == t.agents.insert(id, row) && after.processes == t.processes
            }
        }),
{
    assert(crate::tables::kind_accepted(kind@));
}

/// The statuses are kept as numbers, and told apart by them and by their names.
pub proof fn statuses_are_kept_as_numbers(status: AgentStatus)
    ensures
        status_code(AgentStatus::Idle) == 1,
        status_code(AgentStatus::Working) == 2,
        status_code(AgentStatus::Waiting) == 3,
        status_code(AgentStatus::Done) == 4,
        status_code(AgentStatus::Killed) == 5,
        status_of(status_code(status)) == status,
        crate::agent::status_text(AgentStatus::Idle) == "idle"@,
        crate::agent::status_text(AgentStatus::Working) == "working"@,
        crate::agent::status_text(AgentStatus::Waiting) == "waiting"@,
        crate::agent::status_text(AgentStatus::Done) == "done"@,
        crate::agent::status_text(AgentStatus::Killed) == "killed"@,
{
}

/// Idle agents go to work; those at work wait or are done, and go on from there; all may
/// be killed, and killed ones stay so. No other change is permitted.
pub proof fn agents_change_along_their_life(from: AgentStatus, to: AgentStatus)
    ensures
        permitted(from, to) <==> match (from, to) {
            (AgentStatus::Idle, AgentStatus::Working) => true,
            (AgentStatus::Idle, AgentStatus::Killed) => true,
            (AgentStatus::Working, AgentStatus::Waiting) => true,
            (AgentStatus::Working, AgentStatus::Done) => true,
            (AgentStatus::Working, AgentStatus::Killed) => true,
            (AgentStatus::Waiting, AgentStatus::Working) => true,
            (AgentStatus::Waiting, AgentStatus::Killed) => true,
            (AgentStatus::Done, AgentStatus::Working) => true,
            (AgentStatus::Done, AgentStatus::Killed) => true,
            _ => from == to,
        },
{
}

/// What can have become of an agent is what permitted changes lead to.
pub proof fn agents_are_found_along_their_life(from: AgentStatus, to: AgentStatus)
    ensures
        reachable(from, to) <==> exists|next: AgentStatus, last: AgentStatus|
            #![trigger permitted(from, next), permitted(last, to)]
            permitted(from, next) && permitted(next, last) && permitted(last, to),
{
    if reachable(from, to) {
        let working = AgentStatus::Working;
        if from == to {
            assert(permitted(from, from) && permitted(to, to));
        } else if to == AgentStatus::Killed {
            assert(permitted(from, to) && permitted(to, to));
        } else {
            assert(permitted(from, working) && permitted(working, to));
        }
    }
}

/// A permitted change of status is written, and takes back an acknowledgment; the same
/// status again changes nothing; any other change is refused.
pub proof fn statuses_are_written_along_the_life(
    t: Tables,
    storage: Storage,
    id: i64,
    status: AgentStatus,
    now: Timestamp,
)
    requires
        t.wf(),
    ensures
        ({
            let (after, r) = effect(t, storage, Job::SetStatusAgent { id, status }, now);
            let row = t.agents[id];
            let current = status_of(row.status);
            if !t.agents.contains_key(id) {
                r == Err::<Outcome, ErrorView>(ErrorView::AgentNotFound(id)) && after == t
            } else if current == status {
                &&& r == Ok::<Outcome, ErrorView>(
                    Outcome::AgentState { status, acknowledged: row.acked == 1 },
                )
                &&& after == t
            } else if permitted(current, status) {
                &&& r == Ok::<Outcome, ErrorView>(
                    Outcome::AgentState { status, acknowledged: false },
                )
                &&& after == (Tables {
                    agents: t.agents.insert(
                        id,
                        AgentRecord { status: status_code(status), acked: 0, ..row },
                    ),
                    ..t
                })
            } else {
                &&& r == Err::<Outcome, ErrorView>(
                    ErrorView::InvalidAgentTransition { id, from: current, to: status },
                )
                &&& after == t
            }
        }),
{
}

/// Only an agent that is done is acknowledged: any other is refused where that was asked
/// for, and left as it is where it was asked for provided that it is done.
pub proof fn only_done_agents_are_acknowledged(t: Tables, storage: Storage, id: i64, now: Timestamp)
    requires
        t.wf(),
    ensures
        ({
            let (after, r) = effect(t, storage, Job::AcknowledgeAgent { id }, now);
            let (after_if, r_if) = effect(t, storage, Job::AcknowledgeAgentIfDone { id }, now);
            let row = t.agents[id];
            let done = Ok::<Outcome, ErrorView>(
                Outcome::AgentState { status: AgentStatus::Done, acknowledged: true },
            );
            if !t.agents.contains_key(id) {
                &&& r == Err::<Outcome, ErrorView>(ErrorView::AgentNotFound(id)) && after == t
                &&& r_if == Err::<Outcome, ErrorView>(ErrorView::AgentNotFound(id)) && after_if == t
            } else if row.status == 4 {
                &&& r == done && r_if == done && after_if == after
                &&& after.agents == t.agents.insert(id, AgentRecord { acked: 1, ..row })
                &&& after.processes == t.processes
            } else {
                &&& r == Err::<Outcome, ErrorView>(ErrorView::AgentNotDone(id)) && after == t
                &&& r_if == Ok::<Outcome, ErrorView>(
                    Outcome::AgentState { status: status_of(row.status), acknowledged: false },
                ) && after_if == t
            }
        }),
{
    if t.agents.contains_key(id) {
        assert(t.sound_agent(id));
    }
}

/// A removal takes the row with the number out of its table, and no other row of the
/// items.
pub proof fn removals_take_one_row(t: Tables, storage: Storage, id: i64, now: Timestamp)
    ensures
        ({
            let (after, r) = effect(t, storage, Job::DeleteProcess { id }, now);
            if t.processes.contains_key(id) {
                r == Ok::<Outcome, ErrorView>(Outcome::Deleted) && after.processes
                    == t.processes.remove(id) && after.agents == t.agents
            } else {
                r == Err::<Outcome, ErrorView>(ErrorView::NotFound(id)) && after == t
            }
        }),
        ({
            let (after, r) = effect(t, storage, Job::DeleteAgent { id }, now);
            if t.agents.contains_key(id) {
                r == Ok::<Outcome, ErrorView>(Outcome::Deleted) && after.agents == t.agents.remove(
                    id,
                ) && after.processes == t.processes
            } else {
                r == Err::<Outcome, ErrorView>(ErrorView::AgentNotFound(id)) && after == t
            }
        }),
{
}

/// A change that found its row in another state than was read is given up, and so is
/// every transaction whose statement failed.
pub proof fn lost_races_are_given_up(
    transaction: Transaction,
    count: usize,
    failure: Failure,
    now: Timestamp,
)
    requires
        count != 1,
    ensures
        transaction.followed(Answer::Failed(failure), now) == ActionView::Abort(reported(failure)),
        transaction.phase is Finishing ==> transaction.followed(Answer::Changed(count), now)
            == ActionView::Abort(ErrorView::AlreadyFinished(transaction.job->FinishProcess_id)),
        transaction.phase is Status || transaction.phase is AcknowledgingAgent
            || transaction.phase is Removing ==> transaction.followed(
            Answer::Changed(count),
            now,
        ) is Abort,
{
}

/// Rows without a number that can be given out, for a host or an item, are refused.
pub proof fn invalid_numbers_are_refused(transaction: Transaction, id: i64, now: Timestamp)
    requires
        id <= 0,
        transaction.phase is Host || transaction.phase is Item,
    ensures
        transaction.followed(Answer::Inserted(id), now) matches ActionView::Abort(
            ErrorView::Database(_),
        ),
{
}

/// A host is removed exactly where no item refers to it any more.
pub proof fn hosts_go_with_their_last_item(
    transaction: Transaction,
    tmux: bool,
    orchestrator_id: i64,
    references: i64,
    now: Timestamp,
)
    requires
        transaction.phase == (Phase::Counting { tmux, orchestrator_id }),
    ensures
        references == 0 ==> (transaction.followed(Answer::Count(references), now) matches
            ActionView::Run { statement, .. } && statement == (Statement::DeleteHost {
            tmux,
            id: orchestrator_id,
        })),
        references != 0 ==> transaction.followed(Answer::Count(references), now)
            == ActionView::Commit(Outcome::Deleted),
{
}

/// The flags of a command tell its state: it runs and has no end, it has ended, or its
/// end was acknowledged. Flags and ends that tell none of these are refused.
pub proof fn flags_tell_the_state(
    running: i64,
    finished: i64,
    acked: i64,
    finished_at: Option<i64>,
    exit_status: Option<i64>,
)
    ensures
        ({
            let state = lifecycle(running, finished, acked, finished_at, exit_status);
            let ended = finished_at is Some && exit_status is Some && 0 <= exit_status->0 <= 255;
            &&& state == Some(ProcessState::Running) <==> running == 1 && finished == 0 && acked
                == 0 && finished_at is None && exit_status is None
            &&& (state matches Some(ProcessState::Finished { .. })) <==> running == 0 && finished
                == 1 && acked == 0 && ended
            &&& (state matches Some(ProcessState::Acknowledged { .. })) <==> running == 0
                && finished == 0 && acked == 1 && ended
            &&& state matches Some(ProcessState::Finished { finished_at: time, exit_status: code })
                ==> time == moment(finished_at->0 as int) && code == exit_status->0
            &&& state matches Some(
                ProcessState::Acknowledged { finished_at: time, exit_status: code },
            ) ==> time == moment(finished_at->0 as int) && code == exit_status->0
        }),
{
}

/// What is read of an item is what is stored of it and of its host.
pub proof fn items_are_read_as_they_are_stored(t: Tables, storage: Storage, id: i64)
    requires
        t.wf(),
    ensures
        t.processes.contains_key(id) ==> ({
            let run = process_of(process_row(t, id), storage);
            let row = t.processes[id];
            &&& run.id == id && run.label == row.label && run.storage == storage
            &&& run.started_at == moment(row.started_at as int)
            &&& row.running == 1 <==> run.state is Running
            &&& row.finished == 1 <==> run.state is Finished
            &&& row.acked == 1 <==> run.state is Acknowledged
            &&& match run.orchestrator {
                Orchestrator::Shell(shell) => row.shell == 1 && shell.id == row.orchestrator_id
                    && shell.cwd == t.shells[shell.id].cwd && shell.storage == storage,
                Orchestrator::Tmux(tmux) => row.tmux == 1 && tmux.id == row.orchestrator_id
                    && tmux.cwd == t.tmux[tmux.id].cwd && tmux.pane == t.tmux[tmux.id].pane
                    && tmux.storage == storage,
            }
        }),
        t.agents.contains_key(id) ==> ({
            let run = agent_of(agent_row(t, id), storage);
            let row = t.agents[id];
            &&& run.id == id && run.kind == row.kind && run.storage == storage
            &&& run.started_at == moment(row.started_at as int)
            &&& status_code(run.status) == row.status
            &&& run.acknowledged <==> row.acked == 1
            &&& match run.orchestrator {
                Orchestrator::Shell(shell) => row.shell == 1 && shell.id == row.orchestrator_id
                    && shell.cwd == t.shells[shell.id].cwd && shell.storage == storage,
                Orchestrator::Tmux(tmux) => row.tmux == 1 && tmux.id == row.orchestrator_id
                    && tmux.cwd == t.tmux[tmux.id].cwd && tmux.pane == t.tmux[tmux.id].pane
                    && tmux.storage == storage,
            }
        }),
{
    if t.processes.contains_key(id) {
        assert(t.sound_process(id));
    }
    if t.agents.contains_key(id) {
        assert(t.sound_agent(id));
    }
}

/// A command that is observed never goes back in its life, and its end is never replaced
/// by another.
pub proof fn observed_commands_go_forward(run: ProcessRun, state: ProcessState)
    ensures
        run.state is Running ==> run.observed(state).state == state,
        run.state is Acknowledged ==> run.observed(state).state == run.state || run.observed(
            state,
        ).state == state && state is Acknowledged,
        run.state is Finished && state is Running ==> run.observed(state).state == run.state,
        match (run.state, state) {
            (
                ProcessState::Finished { finished_at, exit_status },
                ProcessState::Acknowledged { finished_at: time, exit_status: code },
            ) => run.observed(state).state == if time == finished_at && code == exit_status {
                state
            } else {
                run.state
            },
            _ => true,
        },
        run.observed(state) == (ProcessRun { state: run.observed(state).state, ..run }),
{
}

/// Databases of the two latest versions can be used, and so can empty ones; one that
/// holds tables of something else, or is of another version, cannot.
pub proof fn versions_are_told_apart(path: Seq<char>, version: i64, tables: Result<i64, Failure>)
    ensures
        schema_fault(path, version, tables) is None <==> version == 3 || version == 4 || version
            == 0 && tables == Ok::<i64, Failure>(0),
        version == 0 ==> (tables matches Err(failure) ==> schema_fault(path, version, tables)
            == Some(reported(failure))),
        version == 0 ==> (tables matches Ok(count) ==> count != 0 ==> schema_fault(
            path,
            version,
            tables,
        ) == Some(
            ErrorView::Incompatible(path + " contains tables but no Worklight schema version"@),
        )),
        version == 2 ==> schema_fault(path, version, tables) == Some(
            ErrorView::Incompatible(
                path + " has schema version 2 and requires migration to version "@ + signed(3),
            ),
        ),
        version != 0 && version != 2 && version != 3 && version != 4 ==> schema_fault(
            path,
            version,
            tables,
        ) == Some(
            ErrorView::Incompatible(
                path + " has schema version "@ + signed(version as int)
                    + ", but this build understands "@ + signed(4),
            ),
        ),
{
}

/// Items are collected from a table exactly where more than a thousand of it may be, and
/// five hundred of them at a time; the indexes for that are added where they are not
/// there yet.
pub proof fn collections_begin_above_a_thousand(version: i64, processes: i64, agents: i64)
    ensures
        COLLECT_BATCH == 500,
        collection_of(version, processes, agents) is Some <==> (version == 3 || version == 4) && (
        processes > 1000 || agents > 1000),
        collection_of(version, processes, agents) matches Some(collection) ==> collection == (
        Collection {
            add_indexes: version == 3,
            processes: processes > 1000,
            agents: agents > 1000,
        }),
{
}

/// A range begins at a number that can be given out, does not end before it, and is not
/// empty by its limit.
pub proof fn ranges_are_checked(after: i64, through: i64, limit: usize, text: Seq<char>)
    ensures
        range_fault(after, through, limit, text) is None <==> 0 <= after <= through && 0 < limit
            <= i64::MAX,
        after < 0 || through < after || limit == 0 ==> range_fault(after, through, limit, text)
            == Some(ErrorView::Invalid(text)),
        range_fault(after, through, limit, text) is Some ==> range_fault(
            after,
            through,
            limit,
            text,
        )->0 is Invalid,
{
}

} // verus!
