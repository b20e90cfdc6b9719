//! Writing, one transaction at a time: which statements are run, and what their
//! answers lead to.

use vstd::prelude::*;
use vstd::string::*;

use crate::agent::{permitted, status_code, AgentRun, AgentStatus};
use crate::error::{about, map_error, reported, Error, ErrorView, Failure};
use crate::orchestrator::{Orchestrator, Shell, Tmux};
use crate::process::{ProcessRun, ProcessState};
use crate::rows::{
    agent_state_fault, agent_state_of, decode_agent_state_at, decode_state_at, lifecycle_of,
    path_text, state_fault, AgentStateRow, StateRow,
};
use crate::storage::{Job, Storage};
use crate::text::{decimal, signed};
use crate::time::{from_millis, millis_of, moment, to_millis, Timestamp};

verus! {

/// A parameter of a statement.
#[derive(Debug)]
pub enum Value {
    Integer(i64),
    Text(String),
}

/// A table of tracked items.
#[derive(Clone, Copy, Debug, PartialEq, Eq, Structural)]
pub enum Table {
    Processes,
    Agents,
}

/// A statement inside a transaction.
#[derive(Debug)]
pub enum Statement {
    InsertShell { cwd: String },
    InsertTmux { cwd: String, pane: String },
    InsertProcess { label: String, started_at: i64, tmux: bool, orchestrator_id: i64 },
    InsertAgent { kind: String, started_at: i64, tmux: bool, orchestrator_id: i64 },
    ReadState { id: i64 },
    ReadAgentState { id: i64 },
    FinishProcess { id: i64, finished_at: i64, exit_status: u8 },
    AcknowledgeProcess { id: i64 },
    SetStatus { id: i64, next: AgentStatus, current: AgentStatus, acknowledged: bool },
    AcknowledgeAgent { id: i64 },
    ReadReference { table: Table, id: i64 },
    DeleteRow { table: Table, id: i64 },
    CountReferences { tmux: bool, id: i64 },
    DeleteHost { tmux: bool, id: i64 },
}

/// What the database answers to a statement.
pub enum Answer {
    /// The number of the new row.
    Inserted(i64),
    /// How many rows were changed or removed.
    Changed(usize),
    State(Option<StateRow>),
    AgentState(Option<AgentStateRow>),
    /// Both flags of a reference to a host, and the number of its row.
    Reference(Option<(i64, i64, i64)>),
    Count(i64),
    Failed(Failure),
}

/// How far a transaction has come: which answer it waits for.
pub enum Phase {
    /// The row of the host is being written.
    Host,
    /// The row of the item is being written.
    Item { orchestrator_id: i64, started_at: i64 },
    /// The state of the item is being read.
    State,
    /// The end of a command is being written.
    Finishing { time: i64 },
    /// The acknowledgment of a command is being written.
    Acknowledging { finished_at: Timestamp, exit_status: u8 },
    /// The status of an agent is being written.
    Status,
    /// The acknowledgment of an agent is being written.
    AcknowledgingAgent,
    /// The reference to the host is being read.
    Reference,
    /// The row of the item is being removed.
    Removing { shell_flag: i64, tmux_flag: i64, orchestrator_id: i64 },
    /// The references to the host are being counted.
    Counting { tmux: bool, orchestrator_id: i64 },
    /// The row of the host is being removed.
    RemovingHost,
}

/// What a transaction leads to.
pub enum Outcome {
    Started(ProcessRun),
    Registered(AgentRun),
    State(ProcessState),
    AgentState { status: AgentStatus, acknowledged: bool },
    Deleted,
}

/// A transaction that waits for an answer.
pub struct Transaction {
    pub storage: Storage,
    pub job: Job,
    pub phase: Phase,
}

/// What to do next.
pub enum Action {
    /// Run a statement, and go on with its answer.
    Run { statement: Statement, rest: Transaction },
    /// Commit; this is the outcome.
    Commit(Outcome),
    /// Roll back; this is the reason.
    Abort(Error),
}

/// What to do next, with a plain error.
pub enum ActionView {
    Run { statement: Statement, rest: Transaction },
    Commit(Outcome),
    Abort(ErrorView),
}

impl View for Action {
    type V = ActionView;

    open spec fn view(&self) -> ActionView {
        match *self {
            Action::Run { statement, rest } => ActionView::Run { statement, rest },
            Action::Commit(outcome) => ActionView::Commit(outcome),
            Action::Abort(error) => ActionView::Abort(error@),
        }
    }
}

/// The name of a table of tracked items.
pub open spec fn table_text(table: Table) -> Seq<char> {
    match table {
        Table::Processes => "processes"@,
        Table::Agents => "agents"@,
    }
}

impl Statement {
    /// The text of the statement.
    pub open spec fn text(self) -> Seq<char> {
        match self {
            Statement::InsertShell { .. } => "INSERT INTO shells(cwd) VALUES(?1)"@,
            Statement::InsertTmux { .. } => "INSERT INTO tmux(cwd,pane) VALUES(?1,?2)"@,
            Statement::InsertProcess { .. } =>
            "INSERT INTO processes(label,started_at,running,finished,acked,shell,tmux,orchestrator_id) VALUES(?1,?2,1,0,0,?3,?4,?5)"@,
            Statement::InsertAgent { .. } =>
            "INSERT INTO agents(kind,started_at,status,acked,shell,tmux,orchestrator_id) VALUES(?1,?2,1,0,?3,?4,?5)"@,
            Statement::ReadState { .. } =>
            "SELECT running,finished,acked,finished_at,exit_status FROM processes WHERE id=?1"@,
            Statement::ReadAgentState { .. } => "SELECT status,acked FROM agents WHERE id=?1"@,
            Statement::FinishProcess { .. } =>
            "UPDATE processes SET running=0,finished=1,acked=0,finished_at=?2,exit_status=?3 WHERE id=?1 AND running=1"@,
            Statement::AcknowledgeProcess { .. } =>
            "UPDATE processes SET finished=0,acked=1 WHERE id=?1 AND finished=1"@,
            Statement::SetStatus { .. } =>
            "UPDATE agents SET status=?2,acked=0 WHERE id=?1 AND status=?3 AND acked=?4"@,
            Statement::AcknowledgeAgent { .. } =>
            "UPDATE agents SET acked=1 WHERE id=?1 AND status=4 AND acked=0"@,
            Statement::ReadReference { table: Table::Processes, .. } =>
            "SELECT shell,tmux,orchestrator_id FROM processes WHERE id=?1"@,
            Statement::ReadReference { table: Table::Agents, .. } =>
            "SELECT shell,tmux,orchestrator_id FROM agents WHERE id=?1"@,
            Statement::DeleteRow { table: Table::Processes, .. } =>
            "DELETE FROM processes WHERE id=?1"@,
            Statement::DeleteRow { table: Table::Agents, .. } => "DELETE FROM agents WHERE id=?1"@,
            Statement::CountReferences { tmux: false, .. } =>
            "SELECT (SELECT count(*) FROM processes WHERE shell=1 AND orchestrator_id=?1) + (SELECT count(*) FROM agents WHERE shell=1 AND orchestrator_id=?1)"@,
            Statement::CountReferences { tmux: true, .. } =>
            "SELECT (SELECT count(*) FROM processes WHERE tmux=1 AND orchestrator_id=?1) + (SELECT count(*) FROM agents WHERE tmux=1 AND orchestrator_id=?1)"@,
            Statement::DeleteHost { tmux: false, .. } => "DELETE FROM shells WHERE id=?1"@,
            Statement::DeleteHost { tmux: true, .. } => "DELETE FROM tmux WHERE id=?1"@,
        }
    }

    /// The parameters of the statement.
    pub open spec fn values(self) -> Seq<Value> {
        match self {
            Statement::InsertShell { cwd } => seq![Value::Text(cwd)],
            Statement::InsertTmux { cwd, pane } => seq![Value::Text(cwd), Value::Text(pane)],
            Statement::InsertProcess { label, started_at, tmux, orchestrator_id } => seq![
                Value::Text(label),
                Value::Integer(started_at),
                Value::Integer(if tmux { 0 } else { 1 }),
                Value::Integer(if tmux { 1 } else { 0 }),
                Value::Integer(orchestrator_id),
            ],
            Statement::InsertAgent { kind, started_at, tmux, orchestrator_id } => seq![
                Value::Text(kind),
                Value::Integer(started_at),
                Value::Integer(if tmux { 0 } else { 1 }),
                Value::Integer(if tmux { 1 } else { 0 }),
                Value::Integer(orchestrator_id),
            ],
            Statement::ReadState { id } => seq![Value::Integer(id)],
            Statement::ReadAgentState { id } => seq![Value::Integer(id)],
            Statement::FinishProcess { id, finished_at, exit_status } => seq![
                Value::Integer(id),
                Value::Integer(finished_at),
                Value::Integer(exit_status as i64),
            ],
            Statement::AcknowledgeProcess { id } => seq![Value::Integer(id)],
            Statement::SetStatus { id, next, current, acknowledged } => seq![
                Value::Integer(id),
                Value::Integer(status_code(next)),
                Value::Integer(status_code(current)),
                Value::Integer(if acknowledged { 1 } else { 0 }),
            ],
            Statement::AcknowledgeAgent { id } => seq![Value::Integer(id)],
            Statement::ReadReference { id, .. } => seq![Value::Integer(id)],
            Statement::DeleteRow { id, .. } => seq![Value::Integer(id)],
            Statement::CountReferences { id, .. } => seq![Value::Integer(id)],
            Statement::DeleteHost { id, .. } => seq![Value::Integer(id)],
        }
    }

    /// Whether an answer is one to the statement.
    pub open spec fn answered_by(self, answer: Answer) -> bool {
        answer is Failed || match self {
            Statement::InsertShell { .. } => answer is Inserted,
            Statement::InsertTmux { .. } => answer is Inserted,
            Statement::InsertProcess { .. } => answer is Inserted,
            Statement::InsertAgent { .. } => answer is Inserted,
            Statement::ReadState { .. } => answer is State,
            Statement::ReadAgentState { .. } => answer is AgentState,
            Statement::FinishProcess { .. } => answer is Changed,
            Statement::AcknowledgeProcess { .. } => answer is Changed,
            Statement::SetStatus { .. } => answer is Changed,
            Statement::AcknowledgeAgent { .. } => answer is Changed,
            Statement::ReadReference { .. } => answer is Reference,
            Statement::DeleteRow { .. } => answer is Changed,
            Statement::CountReferences { .. } => answer is Count,
            Statement::DeleteHost { .. } => answer is Changed,
        }
    }

    /// The text of the statement.
    pub fn sql(&self) -> (r: &'static str)
        ensures
            r@ == self.text(),
    {
        match self {
            Statement::InsertShell { .. } => "INSERT INTO shells(cwd) VALUES(?1)",
            Statement::InsertTmux { .. } => "INSERT INTO tmux(cwd,pane) VALUES(?1,?2)",
            Statement::InsertProcess { .. } =>
            "INSERT INTO processes(label,started_at,running,finished,acked,shell,tmux,orchestrator_id) VALUES(?1,?2,1,0,0,?3,?4,?5)",
            Statement::InsertAgent { .. } =>
            "INSERT INTO agents(kind,started_at,status,acked,shell,tmux,orchestrator_id) VALUES(?1,?2,1,0,?3,?4,?5)",
            Statement::ReadState { .. } =>
            "SELECT running,finished,acked,finished_at,exit_status FROM processes WHERE id=?1",
            Statement::ReadAgentState { .. } => "SELECT status,acked FROM agents WHERE id=?1",
            Statement::FinishProcess { .. } =>
            "UPDATE processes SET running=0,finished=1,acked=0,finished_at=?2,exit_status=?3 WHERE id=?1 AND running=1",
            Statement::AcknowledgeProcess { .. } =>
            "UPDATE processes SET finished=0,acked=1 WHERE id=?1 AND finished=1",
            Statement::SetStatus { .. } =>
            "UPDATE agents SET status=?2,acked=0 WHERE id=?1 AND status=?3 AND acked=?4",
            Statement::AcknowledgeAgent { .. } =>
            "UPDATE agents SET acked=1 WHERE id=?1 AND status=4 AND acked=0",
            Statement::ReadReference { table: Table::Processes, .. } =>
            "SELECT shell,tmux,orchestrator_id FROM processes WHERE id=?1",
            Statement::ReadReference { table: Table::Agents, .. } =>
            "SELECT shell,tmux,orchestrator_id FROM agents WHERE id=?1",
            Statement::DeleteRow { table: Table::Processes, .. } =>
            "DELETE FROM processes WHERE id=?1",
            Statement::DeleteRow { table: Table::Agents, .. } => "DELETE FROM agents WHERE id=?1",
            Statement::CountReferences { tmux: false, .. } =>
            "SELECT (SELECT count(*) FROM processes WHERE shell=1 AND orchestrator_id=?1) + (SELECT count(*) FROM agents WHERE shell=1 AND orchestrator_id=?1)",
            Statement::CountReferences { tmux: true, .. } =>
            "SELECT (SELECT count(*) FROM processes WHERE tmux=1 AND orchestrator_id=?1) + (SELECT count(*) FROM agents WHERE tmux=1 AND orchestrator_id=?1)",
            Statement::DeleteHost { tmux: false, .. } => "DELETE FROM shells WHERE id=?1",
            Statement::DeleteHost { tmux: true, .. } => "DELETE FROM tmux WHERE id=?1",
        }
    }

    /// The parameters of the statement.
    pub fn params(&self) -> (r: Vec<Value>)
        ensures
            r@ == self.values(),
    {
        match self {
            Statement::InsertShell { cwd } => vec![Value::Text(cwd.clone())],
            Statement::InsertTmux { cwd, pane } => vec![
                Value::Text(cwd.clone()),
                Value::Text(pane.clone()),
            ],
            Statement::InsertProcess { label, started_at, tmux, orchestrator_id } => vec![
                Value::Text(label.clone()),
                Value::Integer(*started_at),
                Value::Integer(if *tmux { 0 } else { 1 }),
                Value::Integer(if *tmux { 1 } else { 0 }),
                Value::Integer(*orchestrator_id),
            ],
            Statement::InsertAgent { kind, started_at, tmux, orchestrator_id } => vec![
                Value::Text(kind.clone()),
                Value::Integer(*started_at),
                Value::Integer(if *tmux { 0 } else { 1 }),
                Value::Integer(if *tmux { 1 } else { 0 }),
                Value::Integer(*orchestrator_id),
            ],
            Statement::ReadState { id } => vec![Value::Integer(*id)],
            Statement::ReadAgentState { id } => vec![Value::Integer(*id)],
            Statement::FinishProcess { id, finished_at, exit_status } => vec![
                Value::Integer(*id),
                Value::Integer(*finished_at),
                Value::Integer(*exit_status as i64),
            ],
            Statement::AcknowledgeProcess { id } => vec![Value::Integer(*id)],
            Statement::SetStatus { id, next, current, acknowledged } => vec![
                Value::Integer(*id),
                Value::Integer(next.code()),
                Value::Integer(current.code()),
                Value::Integer(if *acknowledged { 1 } else { 0 }),
            ],
            Statement::AcknowledgeAgent { id } => vec![Value::Integer(*id)],
            Statement::ReadReference { id, .. } => vec![Value::Integer(*id)],
            Statement::DeleteRow { id, .. } => vec![Value::Integer(*id)],
            Statement::CountReferences { id, .. } => vec![Value::Integer(*id)],
            Statement::DeleteHost { id, .. } => vec![Value::Integer(*id)],
        }
    }
}

/// The host that a new item is started in.
pub open spec fn new_host(storage: Storage, id: i64, cwd: String, pane: Option<String>) -> Orchestrator {
    match pane {
        None => Orchestrator::Shell(Shell { id, cwd, storage }),
        Some(pane) => Orchestrator::Tmux(Tmux { id, cwd, pane, storage }),
    }
}

/// The working directory and the pane of a new item.
pub open spec fn place_of_job(job: Job) -> (String, Option<String>) {
    match job {
        Job::CreateAgent { cwd, pane, .. } => (cwd, pane),
        _ => (job->StartProcess_cwd, job->StartProcess_pane),
    }
}

/// Whether an outcome is one of a job.
pub open spec fn fits(job: Job, outcome: Outcome) -> bool {
    match job {
        Job::StartProcess { .. } => outcome is Started,
        Job::FinishProcess { .. } => outcome is State,
        Job::AcknowledgeProcess { .. } => outcome is State,
        Job::DeleteProcess { .. } => outcome is Deleted,
        Job::CreateAgent { .. } => outcome is Registered,
        Job::SetStatusAgent { .. } => outcome is AgentState,
        Job::AcknowledgeAgent { .. } => outcome is AgentState,
        Job::AcknowledgeAgentIfDone { .. } => outcome is AgentState,
        Job::DeleteAgent { .. } => outcome is Deleted,
    }
}

/// Whether a job starts a new item, in a pane that has a name where it has one.
pub open spec fn starts_item(job: Job) -> bool {
    &&& job is StartProcess || job is CreateAgent
    &&& match place_of_job(job).1 {
        Some(pane) => pane@.len() > 0,
        None => true,
    }
}

/// The first statement of a job.
pub open spec fn opening(storage: Storage, job: Job) -> ActionView {
    match job {
        Job::StartProcess { cwd, pane, .. } => host_opening(storage, job, cwd, pane),
        Job::CreateAgent { cwd, pane, .. } => host_opening(storage, job, cwd, pane),
        Job::FinishProcess { id, .. } => running(
            Statement::ReadState { id },
            storage,
            job,
            Phase::State,
        ),
        Job::AcknowledgeProcess { id } => running(
            Statement::ReadState { id },
            storage,
            job,
            Phase::State,
        ),
        Job::SetStatusAgent { id, .. } => running(
            Statement::ReadAgentState { id },
            storage,
            job,
            Phase::State,
        ),
        Job::AcknowledgeAgent { id } => running(
            Statement::ReadAgentState { id },
            storage,
            job,
            Phase::State,
        ),
        Job::AcknowledgeAgentIfDone { id } => running(
            Statement::ReadAgentState { id },
            storage,
            job,
            Phase::State,
        ),
        Job::DeleteProcess { id } => running(
            Statement::ReadReference { table: Table::Processes, id },
            storage,
            job,
            Phase::Reference,
        ),
        Job::DeleteAgent { id } => running(
            Statement::ReadReference { table: Table::Agents, id },
            storage,
            job,
            Phase::Reference,
        ),
    }
}

/// Running a statement for a job.
pub open spec fn running(
    statement: Statement,
    storage: Storage,
    job: Job,
    phase: Phase,
) -> ActionView {
    ActionView::Run { statement, rest: Transaction { storage, job, phase } }
}

/// Writing the row of the host of a new item. A pane has to have a name.
pub open spec fn host_opening(
    storage: Storage,
    job: Job,
    cwd: String,
    pane: Option<String>,
) -> ActionView {
    match pane {
        None => running(Statement::InsertShell { cwd }, storage, job, Phase::Host),
        Some(pane) => if pane@.len() == 0 {
            ActionView::Abort(ErrorView::Invalid("tmux pane is empty"@))
        } else {
            running(Statement::InsertTmux { cwd, pane }, storage, job, Phase::Host)
        },
    }
}

/// The item that a delete job removes.
pub open spec fn deleted_item(job: Job) -> (Table, i64) {
    match job {
        Job::DeleteAgent { id } => (Table::Agents, id),
        _ => (Table::Processes, job->DeleteProcess_id),
    }
}

impl Transaction {
    /// Whether the phase is one that the job goes through.
    pub open spec fn wf(self) -> bool {
        match self.phase {
            Phase::Host => starts_item(self.job),
            Phase::Item { orchestrator_id, .. } => starts_item(self.job) && orchestrator_id > 0,
            Phase::State => self.job is FinishProcess || self.job is AcknowledgeProcess
                || self.job is SetStatusAgent || self.job is AcknowledgeAgent
                || self.job is AcknowledgeAgentIfDone,
            Phase::Finishing { .. } => self.job is FinishProcess,
            Phase::Acknowledging { .. } => self.job is AcknowledgeProcess,
            Phase::Status => self.job is SetStatusAgent,
            Phase::AcknowledgingAgent => self.job is AcknowledgeAgent
                || self.job is AcknowledgeAgentIfDone,
            Phase::Reference => self.job is DeleteProcess || self.job is DeleteAgent,
            Phase::Removing { .. } => self.job is DeleteProcess || self.job is DeleteAgent,
            Phase::Counting { .. } => self.job is DeleteProcess || self.job is DeleteAgent,
            Phase::RemovingHost => self.job is DeleteProcess || self.job is DeleteAgent,
        }
    }

    /// Whether an answer is the one that the transaction waits for.
    pub open spec fn awaits(self, answer: Answer) -> bool {
        answer is Failed || match self.phase {
            Phase::Host => answer is Inserted,
            Phase::Item { .. } => answer is Inserted,
            Phase::State => if self.job is FinishProcess || self.job is AcknowledgeProcess {
                answer is State
            } else {
                answer is AgentState
            },
            Phase::Finishing { .. } => answer is Changed,
            Phase::Acknowledging { .. } => answer is Changed,
            Phase::Status => answer is Changed,
            Phase::AcknowledgingAgent => answer is Changed,
            Phase::Reference => answer is Reference,
            Phase::Removing { .. } => answer is Changed,
            Phase::Counting { .. } => answer is Count,
            Phase::RemovingHost => answer is Changed,
        }
    }

    /// What follows an answer that came at a time.
    pub open spec fn followed(self, answer: Answer, now: Timestamp) -> ActionView {
        match answer {
            Answer::Failed(failure) => ActionView::Abort(reported(failure)),
            Answer::Inserted(id) => if self.phase is Host {
                self.host_written(id, now)
            } else {
                self.item_written(id)
            },
            Answer::State(row) => self.state_read(row, now),
            Answer::AgentState(row) => self.agent_state_read(row),
            Answer::Changed(count) => self.rows_changed(count),
            Answer::Reference(found) => self.reference_read(found),
            Answer::Count(references) => self.references_counted(references),
        }
    }

    /// Behind the row of the host: the row of the item, which starts now.
    pub open spec fn host_written(self, id: i64, now: Timestamp) -> ActionView {
        let started_at = millis_of(now) as i64;
        if id <= 0 {
            ActionView::Abort(
                ErrorView::Database("SQLite returned an invalid orchestrator id"@),
            )
        } else {
            let phase = Phase::Item { orchestrator_id: id, started_at };
            let tmux = place_of_job(self.job).1 is Some;
            match self.job {
                Job::CreateAgent { kind, .. } => running(
                    Statement::InsertAgent { kind, started_at, tmux, orchestrator_id: id },
                    self.storage,
                    self.job,
                    phase,
                ),
                _ => running(
                    Statement::InsertProcess {
                        label: self.job->label,
                        started_at,
                        tmux,
                        orchestrator_id: id,
                    },
                    self.storage,
                    self.job,
                    phase,
                ),
            }
        }
    }

    /// Behind the row of the item: the item is handed out.
    pub open spec fn item_written(self, id: i64) -> ActionView {
        let (cwd, pane) = place_of_job(self.job);
        let orchestrator = new_host(self.storage, self.phase->Item_orchestrator_id, cwd, pane);
        let started_at = moment(self.phase->started_at as int);
        match self.job {
            Job::CreateAgent { kind, .. } => if id <= 0 {
                ActionView::Abort(ErrorView::Database("SQLite returned an invalid agent id"@))
            } else {
                ActionView::Commit(
                    Outcome::Registered(
                        AgentRun {
                            id,
                            kind,
                            started_at,
                            status: AgentStatus::Idle,
                            acknowledged: false,
                            orchestrator,
                            storage: self.storage,
                        },
                    ),
                )
            },
            _ => if id <= 0 {
                ActionView::Abort(ErrorView::Database("SQLite returned an invalid process id"@))
            } else {
                ActionView::Commit(
                    Outcome::Started(
                        ProcessRun {
                            id,
                            label: self.job->label,
                            started_at,
                            state: ProcessState::Running,
                            orchestrator,
                            storage: self.storage,
                        },
                    ),
                )
            },
        }
    }

    /// Behind the state of a command.
    pub open spec fn state_read(self, row: Option<StateRow>, now: Timestamp) -> ActionView {
        let id = match self.job {
            Job::FinishProcess { id, .. } => id,
            _ => self.job->AcknowledgeProcess_id,
        };
        match row {
            None => ActionView::Abort(ErrorView::NotFound(id)),
            Some(row) => match state_fault(row) {
                Some(text) => ActionView::Abort(ErrorView::CorruptData(text)),
                None => self.state_known(id, lifecycle_of(row)->0, now),
            },
        }
    }

    /// Only a running command ends, and only one that ended is acknowledged.
    pub open spec fn state_known(self, id: i64, state: ProcessState, now: Timestamp) -> ActionView {
        match self.job {
            Job::FinishProcess { exit_status, .. } => match state {
                ProcessState::Running => running(
                    Statement::FinishProcess {
                        id,
                        finished_at: millis_of(now) as i64,
                        exit_status,
                    },
                    self.storage,
                    self.job,
                    Phase::Finishing { time: millis_of(now) as i64 },
                ),
                ProcessState::Finished { .. } => ActionView::Abort(ErrorView::AlreadyFinished(id)),
                ProcessState::Acknowledged { .. } => ActionView::Abort(
                    ErrorView::AlreadyAcknowledged(id),
                ),
            },
            _ => match state {
                ProcessState::Running => ActionView::Abort(ErrorView::StillRunning(id)),
                ProcessState::Finished { finished_at, exit_status } => running(
                    Statement::AcknowledgeProcess { id },
                    self.storage,
                    self.job,
                    Phase::Acknowledging { finished_at, exit_status },
                ),
                ProcessState::Acknowledged { .. } => ActionView::Commit(Outcome::State(state)),
            },
        }
    }

    /// Behind the status of an agent.
    pub open spec fn agent_state_read(self, row: Option<AgentStateRow>) -> ActionView {
        let id = match self.job {
            Job::SetStatusAgent { id, .. } => id,
            Job::AcknowledgeAgent { id } => id,
            _ => self.job->AcknowledgeAgentIfDone_id,
        };
        match row {
            None => ActionView::Abort(ErrorView::AgentNotFound(id)),
            Some(row) => match agent_state_fault(row) {
                Some(text) => ActionView::Abort(ErrorView::CorruptData(text)),
                None => self.status_known(id, agent_state_of(row).0, agent_state_of(row).1),
            },
        }
    }

    /// Only a permitted change of status is written, and only an agent that is done
    /// and not acknowledged is acknowledged.
    pub open spec fn status_known(
        self,
        id: i64,
        current: AgentStatus,
        acknowledged: bool,
    ) -> ActionView {
        let unchanged = ActionView::Commit(
            Outcome::AgentState { status: current, acknowledged },
        );
        let acknowledging = running(
            Statement::AcknowledgeAgent { id },
            self.storage,
            self.job,
            Phase::AcknowledgingAgent,
        );
        match self.job {
            Job::SetStatusAgent { status, .. } => if current == status {
                unchanged
            } else if !permitted(current, status) {
                ActionView::Abort(
                    ErrorView::InvalidAgentTransition { id, from: current, to: status },
                )
            } else {
                running(
                    Statement::SetStatus { id, next: status, current, acknowledged },
                    self.storage,
                    self.job,
                    Phase::Status,
                )
            },
            Job::AcknowledgeAgent { .. } => if current != AgentStatus::Done {
                ActionView::Abort(ErrorView::AgentNotDone(id))
            } else if acknowledged {
                unchanged
            } else {
                acknowledging
            },
            _ => if current != AgentStatus::Done || acknowledged {
                unchanged
            } else {
                acknowledging
            },
        }
    }

    /// Behind a change: exactly one row is to have changed, except where a command is
    /// acknowledged or a host is removed.
    pub open spec fn rows_changed(self, count: usize) -> ActionView {
        let (table, id) = deleted_item(self.job);
        match self.phase {
            Phase::Finishing { time } => if count != 1 {
                ActionView::Abort(ErrorView::AlreadyFinished(self.job->FinishProcess_id))
            } else {
                ActionView::Commit(
                    Outcome::State(
                        ProcessState::Finished {
                            finished_at: moment(time as int),
                            exit_status: self.job->exit_status,
                        },
                    ),
                )
            },
            Phase::Acknowledging { finished_at, exit_status } => ActionView::Commit(
                Outcome::State(ProcessState::Acknowledged { finished_at, exit_status }),
            ),
            Phase::Status => if count != 1 {
                ActionView::Abort(
                    ErrorView::Database(
                        "agent "@ + signed(self.job->SetStatusAgent_id as int)
                            + " changed during status update"@,
                    ),
                )
            } else {
                ActionView::Commit(
                    Outcome::AgentState { status: self.job->status, acknowledged: false },
                )
            },
            Phase::AcknowledgingAgent => if count != 1 {
                ActionView::Abort(
                    ErrorView::Database(
                        match self.job {
                            Job::AcknowledgeAgent { id } => "agent "@ + signed(id as int)
                                + " changed during acknowledgment"@,
                            _ => "agent "@ + signed(self.job->AcknowledgeAgentIfDone_id as int)
                                + " changed during conditional acknowledgment"@,
                        },
                    ),
                )
            } else {
                ActionView::Commit(
                    Outcome::AgentState { status: AgentStatus::Done, acknowledged: true },
                )
            },
            Phase::Removing { shell_flag: shell, tmux_flag: tmux, orchestrator_id } => if count != 1 {
                ActionView::Abort(
                    ErrorView::Database(
                        table_text(table) + " row "@ + signed(id as int)
                            + " changed during deletion"@,
                    ),
                )
            } else if (shell == 1 && tmux == 0) || (shell == 0 && tmux == 1) {
                running(
                    Statement::CountReferences { tmux: tmux == 1, id: orchestrator_id },
                    self.storage,
                    self.job,
                    Phase::Counting { tmux: tmux == 1, orchestrator_id },
                )
            } else {
                ActionView::Abort(
                    ErrorView::CorruptData(
                        table_text(table) + " row "@ + signed(id as int)
                            + " has invalid orchestrator flags"@,
                    ),
                )
            },
            _ => ActionView::Commit(Outcome::Deleted),
        }
    }

    /// Behind the reference to the host: the row of the item is removed.
    pub open spec fn reference_read(self, found: Option<(i64, i64, i64)>) -> ActionView {
        let (table, id) = deleted_item(self.job);
        match found {
            None => ActionView::Abort(
                if table == Table::Agents {
                    ErrorView::AgentNotFound(id)
                } else {
                    ErrorView::NotFound(id)
                },
            ),
            Some((shell, tmux, orchestrator_id)) => running(
                Statement::DeleteRow { table, id },
                self.storage,
                self.job,
                Phase::Removing { shell_flag: shell, tmux_flag: tmux, orchestrator_id },
            ),
        }
    }

    /// Behind the count of references: a host without any is removed.
    pub open spec fn references_counted(self, references: i64) -> ActionView {
        if references == 0 {
            running(
                Statement::DeleteHost {
                    tmux: self.phase->Counting_tmux,
                    id: self.phase->Counting_orchestrator_id,
                },
                self.storage,
                self.job,
                Phase::RemovingHost,
            )
        } else {
            ActionView::Commit(Outcome::Deleted)
        }
    }

    /// The first statement of a job, once the transaction is open.
    pub fn begin(storage: Storage, job: Job) -> (r: Action)
        ensures
            r@ == opening(storage, job),
            r matches Action::Run { statement, rest } ==> rest.wf() && forall|answer: Answer|
                statement.answered_by(answer) ==> rest.awaits(answer),
    {
        let (statement, phase): (Statement, Phase) = match &job {
            Job::StartProcess { cwd, pane, .. } | Job::CreateAgent { cwd, pane, .. } => match pane {
                None => (Statement::InsertShell { cwd: path_text(cwd) }, Phase::Host),
                Some(pane) => {
                    if pane.as_str().is_empty() {
                        return Action::Abort(Error::Invalid("tmux pane is empty".to_owned()));
                    }
                    (
                        Statement::InsertTmux { cwd: path_text(cwd), pane: pane.clone() },
                        Phase::Host,
                    )
                },
            },
            Job::FinishProcess { id, .. } => (Statement::ReadState { id: *id }, Phase::State),
            Job::AcknowledgeProcess { id } => (Statement::ReadState { id: *id }, Phase::State),
            Job::SetStatusAgent { id, .. } => (Statement::ReadAgentState { id: *id }, Phase::State),
            Job::AcknowledgeAgent { id } => (Statement::ReadAgentState { id: *id }, Phase::State),
            Job::AcknowledgeAgentIfDone { id } => (
                Statement::ReadAgentState { id: *id },
                Phase::State,
            ),
            Job::DeleteProcess { id } => (
                Statement::ReadReference { table: Table::Processes, id: *id },
                Phase::Reference,
            ),
            Job::DeleteAgent { id } => (
                Statement::ReadReference { table: Table::Agents, id: *id },
                Phase::Reference,
            ),
        };
        Action::Run { statement, rest: Transaction { storage, job, phase } }
    }

    /// Goes on with an answer that came at the given time.
    pub fn advance(self, answer: Answer, now: Timestamp) -> (r: Action)
        requires
            self.wf(),
            self.awaits(answer),
        ensures
            r@ == self.followed(answer, now),
            r matches Action::Run { statement, rest } ==> rest.wf() && forall|answer: Answer|
                statement.answered_by(answer) ==> rest.awaits(answer),
    {
        match answer {
            Answer::Failed(failure) => Action::Abort(map_error(failure)),
            Answer::Inserted(id) => {
                if matches!(self.phase, Phase::Host) {
                    self.write_item(id, now)
                } else {
                    self.hand_out(id)
                }
            },
            Answer::State(row) => self.after_state(row, now),
            Answer::AgentState(row) => self.after_agent_state(row),
            Answer::Changed(count) => self.after_change(count),
            Answer::Reference(found) => self.after_reference(found),
            Answer::Count(references) => {
                if references == 0 {
                    match self.phase {
                        Phase::Counting { tmux, orchestrator_id } => Action::Run {
                            statement: Statement::DeleteHost { tmux, id: orchestrator_id },
                            rest: Transaction {
                                storage: self.storage,
                                job: self.job,
                                phase: Phase::RemovingHost,
                            },
                        },
                        _ => Action::Commit(Outcome::Deleted),
                    }
                } else {
                    Action::Commit(Outcome::Deleted)
                }
            },
        }
    }

    fn write_item(self, id: i64, now: Timestamp) -> (r: Action)
        requires
            self.wf(),
            self.phase is Host,
        ensures
            r@ == self.host_written(id, now),
            r matches Action::Run { statement, rest } ==> rest.wf() && forall|answer: Answer|
                statement.answered_by(answer) ==> rest.awaits(answer),
    {
        if id <= 0 {
            return Action::Abort(
                Error::Database("SQLite returned an invalid orchestrator id".to_owned()),
            );
        }
        let started_at: i64 = to_millis(now);
        let phase: Phase = Phase::Item { orchestrator_id: id, started_at };
        match &self.job {
            Job::CreateAgent { kind, pane, .. } => {
                let statement: Statement = Statement::InsertAgent {
                    kind: kind.clone(),
                    started_at,
                    tmux: pane.is_some(),
                    orchestrator_id: id,
                };
                Action::Run {
                    statement,
                    rest: Transaction { storage: self.storage, job: self.job, phase },
                }
            },
            Job::StartProcess { label, pane, .. } => {
                let statement: Statement = Statement::InsertProcess {
                    label: label.clone(),
                    started_at,
                    tmux: pane.is_some(),
                    orchestrator_id: id,
                };
                Action::Run {
                    statement,
                    rest: Transaction { storage: self.storage, job: self.job, phase },
                }
            },
            _ => Action::Commit(Outcome::Deleted),
        }
    }

    fn hand_out(self, id: i64) -> (r: Action)
        requires
            self.wf(),
            self.phase is Item,
        ensures
            r@ == self.item_written(id),
            !(r is Run),
    {
        let (orchestrator_id, started) = match self.phase {
            Phase::Item { orchestrator_id, started_at } => (orchestrator_id, started_at),
            _ => (0, 0),
        };
        let storage: Storage = self.storage;
        let started_at: Timestamp = from_millis(started);
        match self.job {
            Job::CreateAgent { kind, cwd, pane } => {
                if id <= 0 {
                    return Action::Abort(
                        Error::Database("SQLite returned an invalid agent id".to_owned()),
                    );
                }
                match restore_host(storage, orchestrator_id, cwd, pane) {
                    Err(error) => Action::Abort(error),
                    Ok(orchestrator) => Action::Commit(
                        Outcome::Registered(
                            AgentRun::hydrate(
                                storage,
                                id,
                                kind,
                                started_at,
                                AgentStatus::Idle,
                                false,
                                orchestrator,
                            ),
                        ),
                    ),
                }
            },
            Job::StartProcess { label, cwd, pane } => {
                if id <= 0 {
                    return Action::Abort(
                        Error::Database("SQLite returned an invalid process id".to_owned()),
                    );
                }
                match restore_host(storage, orchestrator_id, cwd, pane) {
                    Err(error) => Action::Abort(error),
                    Ok(orchestrator) => Action::Commit(
                        Outcome::Started(
                            ProcessRun::hydrate(
                                storage,
                                id,
                                label,
                                started_at,
                                ProcessState::Running,
                                orchestrator,
                            ),
                        ),
                    ),
                }
            },
            _ => Action::Commit(Outcome::Deleted),
        }
    }

    fn after_state(self, row: Option<StateRow>, now: Timestamp) -> (r: Action)
        requires
            self.wf(),
            self.phase is State,
            self.job is FinishProcess || self.job is AcknowledgeProcess,
        ensures
            r@ == self.state_read(row, now),
            r matches Action::Run { statement, rest } ==> rest.wf() && forall|answer: Answer|
                statement.answered_by(answer) ==> rest.awaits(answer),
    {
        let id: i64 = match &self.job {
            Job::FinishProcess { id, .. } => *id,
            Job::AcknowledgeProcess { id } => *id,
            _ => 0,
        };
        let state: ProcessState = match row {
            None => return Action::Abort(Error::NotFound(id)),
            Some(row) => match decode_state_at(row) {
                Err(error) => return Action::Abort(error),
                Ok(state) => state,
            },
        };
        match &self.job {
            Job::FinishProcess { exit_status, .. } => match state {
                ProcessState::Running => {
                    let finished_at: i64 = to_millis(now);
                    let statement: Statement = Statement::FinishProcess {
                        id,
                        finished_at,
                        exit_status: *exit_status,
                    };
                    Action::Run {
                        statement,
                        rest: Transaction {
                            storage: self.storage,
                            job: self.job,
                            phase: Phase::Finishing { time: finished_at },
                        },
                    }
                },
                ProcessState::Finished { .. } => Action::Abort(Error::AlreadyFinished(id)),
                ProcessState::Acknowledged { .. } => Action::Abort(Error::AlreadyAcknowledged(id)),
            },
            _ => match state {
                ProcessState::Running => Action::Abort(Error::StillRunning(id)),
                ProcessState::Finished { finished_at, exit_status } => Action::Run {
                    statement: Statement::AcknowledgeProcess { id },
                    rest: Transaction {
                        storage: self.storage,
                        job: self.job,
                        phase: Phase::Acknowledging { finished_at, exit_status },
                    },
                },
                ProcessState::Acknowledged { .. } => Action::Commit(Outcome::State(state)),
            },
        }
    }

    fn after_agent_state(self, row: Option<AgentStateRow>) -> (r: Action)
        requires
            self.wf(),
            self.phase is State,
            !(self.job is FinishProcess || self.job is AcknowledgeProcess),
        ensures
            r@ == self.agent_state_read(row),
            r matches Action::Run { statement, rest } ==> rest.wf() && forall|answer: Answer|
                statement.answered_by(answer) ==> rest.awaits(answer),
    {
        let id: i64 = match &self.job {
            Job::SetStatusAgent { id, .. } => *id,
            Job::AcknowledgeAgent { id } => *id,
            Job::AcknowledgeAgentIfDone { id } => *id,
            _ => 0,
        };
        let (current, acknowledged) = match row {
            None => return Action::Abort(Error::AgentNotFound(id)),
            Some(row) => match decode_agent_state_at(row) {
                Err(error) => return Action::Abort(error),
                Ok(found) => found,
            },
        };
        match &self.job {
            Job::SetStatusAgent { status, .. } => {
                let next: AgentStatus = *status;
                if current == next {
                    return Action::Commit(Outcome::AgentState { status: current, acknowledged });
                }
                if !current.permits(next) {
                    return Action::Abort(
                        Error::InvalidAgentTransition { id, from: current, to: next },
                    );
                }
                return Action::Run {
                    statement: Statement::SetStatus { id, next, current, acknowledged },
                    rest: Transaction {
                        storage: self.storage,
                        job: self.job,
                        phase: Phase::Status,
                    },
                };
            },
            Job::AcknowledgeAgent { .. } => {
                if current != AgentStatus::Done {
                    return Action::Abort(Error::AgentNotDone(id));
                }
            },
            _ => {},
        }
        if current != AgentStatus::Done || acknowledged {
            return Action::Commit(Outcome::AgentState { status: current, acknowledged });
        }
        Action::Run {
            statement: Statement::AcknowledgeAgent { id },
            rest: Transaction {
                storage: self.storage,
                job: self.job,
                phase: Phase::AcknowledgingAgent,
            },
        }
    }

    fn after_change(self, count: usize) -> (r: Action)
        requires
            self.wf(),
            self.awaits(Answer::Changed(count)),
        ensures
            r@ == self.rows_changed(count),
            r matches Action::Run { statement, rest } ==> rest.wf() && forall|answer: Answer|
                statement.answered_by(answer) ==> rest.awaits(answer),
    {
        match self.phase {
            Phase::Finishing { time } => match self.job {
                Job::FinishProcess { id, exit_status } => {
                    if count != 1 {
                        return Action::Abort(Error::AlreadyFinished(id));
                    }
                    Action::Commit(
                        Outcome::State(
                            ProcessState::Finished {
                                finished_at: from_millis(time),
                                exit_status,
                            },
                        ),
                    )
                },
                _ => Action::Commit(Outcome::Deleted),
            },
            Phase::Acknowledging { finished_at, exit_status } => Action::Commit(
                Outcome::State(ProcessState::Acknowledged { finished_at, exit_status }),
            ),
            Phase::Status => match self.job {
                Job::SetStatusAgent { id, status } => {
                    if count != 1 {
                        return Action::Abort(
                            Error::Database(about("agent ", id, " changed during status update")),
                        );
                    }
                    Action::Commit(Outcome::AgentState { status, acknowledged: false })
                },
                _ => Action::Commit(Outcome::Deleted),
            },
            Phase::AcknowledgingAgent => {
                if count != 1 {
                    let text: String = match self.job {
                        Job::AcknowledgeAgent { id } => about(
                            "agent ",
                            id,
                            " changed during acknowledgment",
                        ),
                        Job::AcknowledgeAgentIfDone { id } => about(
                            "agent ",
                            id,
                            " changed during conditional acknowledgment",
                        ),
                        _ => String::new(),
                    };
                    return Action::Abort(Error::Database(text));
                }
                Action::Commit(
                    Outcome::AgentState { status: AgentStatus::Done, acknowledged: true },
                )
            },
            Phase::Removing { shell_flag: shell, tmux_flag: tmux, orchestrator_id } => {
                if count != 1 {
                    return Action::Abort(
                        Error::Database(row_text(&self.job, " changed during deletion")),
                    );
                }
                if !((shell == 1 && tmux == 0) || (shell == 0 && tmux == 1)) {
                    return Action::Abort(
                        Error::CorruptData(row_text(&self.job, " has invalid orchestrator flags")),
                    );
                }
                Action::Run {
                    statement: Statement::CountReferences { tmux: tmux == 1, id: orchestrator_id },
                    rest: Transaction {
                        storage: self.storage,
                        job: self.job,
                        phase: Phase::Counting { tmux: tmux == 1, orchestrator_id },
                    },
                }
            },
            _ => Action::Commit(Outcome::Deleted),
        }
    }

    fn after_reference(self, found: Option<(i64, i64, i64)>) -> (r: Action)
        requires
            self.wf(),
            self.phase is Reference,
        ensures
            r@ == self.reference_read(found),
            r matches Action::Run { statement, rest } ==> rest.wf() && forall|answer: Answer|
                statement.answered_by(answer) ==> rest.awaits(answer),
    {
        let (table, id) = match &self.job {
            Job::DeleteAgent { id } => (Table::Agents, *id),
            Job::DeleteProcess { id } => (Table::Processes, *id),
            _ => (Table::Processes, 0),
        };
        match found {
            None => {
                if table == Table::Agents {
                    Action::Abort(Error::AgentNotFound(id))
                } else {
                    Action::Abort(Error::NotFound(id))
                }
            },
            Some((shell, tmux, orchestrator_id)) => Action::Run {
                statement: Statement::DeleteRow { table, id },
                rest: Transaction {
                    storage: self.storage,
                    job: self.job,
                    phase: Phase::Removing { shell_flag: shell, tmux_flag: tmux, orchestrator_id },
                },
            },
        }
    }
}

fn restore_host(storage: Storage, id: i64, cwd: String, pane: Option<String>) -> (r: Result<
    Orchestrator,
    Error,
>)
    requires
        id > 0,
        pane matches Some(name) ==> name@.len() > 0,
    ensures
        r == Ok::<Orchestrator, Error>(new_host(storage, id, cwd, pane)),
{
    match pane {
        None => Orchestrator::restore_shell(storage, id, cwd),
        Some(name) => Orchestrator::restore_tmux(storage, id, cwd, name),
    }
}

/// A text about the row that a job removes.
fn row_text(job: &Job, after: &str) -> (r: String)
    requires
        job is DeleteProcess || job is DeleteAgent,
    ensures
        r@ == table_text(deleted_item(*job).0) + " row "@ + signed(deleted_item(*job).1 as int)
            + after@,
{
    let (table, id): (&str, i64) = match job {
        Job::DeleteAgent { id } => ("agents", *id),
        Job::DeleteProcess { id } => ("processes", *id),
        _ => ("", 0),
    };
    let mut text: String = table.to_owned();
    text.append(" row ");
    text.append(decimal(id).as_str());
    text.append(after);
    text
}

/// A transaction goes on with its own job, and commits an outcome of that job.
pub proof fn outcomes_fit_their_jobs(transaction: Transaction, answer: Answer, now: Timestamp)
    requires
        transaction.wf(),
        transaction.awaits(answer),
    ensures
        match transaction.followed(answer, now) {
            ActionView::Run { rest, .. } => rest.job == transaction.job,
            ActionView::Commit(outcome) => fits(transaction.job, outcome),
            ActionView::Abort(_) => true,
        },
{
}

} // verus!
