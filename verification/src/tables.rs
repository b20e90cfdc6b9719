//! What the tables hold, what each statement does to them, and what queries give.
//!
//! `executed` and the functions that begin with `answers` state what SQLite does with
//! each statement and query. They are stated, not proved: nothing here ties them to
//! the SQL text of `Statement::sql` and of the queries. The laws about transactions,
//! collections, loading and synchronization rest on them.

use vstd::pervasive::arbitrary;
use vstd::prelude::*;

use crate::agent::{reachable, status_code, AgentStatus};
use crate::error::{Failure, FailureCode};
use crate::order::{filtering_keeps_order, order_fixes_a_list};
use crate::process::ProcessState;
use crate::query::{AgentQuery, AgentStatusRow, Fetch, ProcessQuery, ProcessStateRow};
use crate::rows::{
    agent_fault, agent_state_fault, agent_state_of, lifecycle_of, process_fault, state_fault,
    AgentRow, AgentStateRow, HostRow, ProcessRow, StateRow,
};
use crate::schema::COLLECT_BATCH;
use crate::storage::Job;
use crate::text::blank;
use crate::transaction::{Answer, Statement, Table};

verus! {

/// A row of the table of shells.
pub struct ShellRecord {
    pub cwd: String,
}

/// A row of the table of tmux panes.
pub struct TmuxRecord {
    pub cwd: String,
    pub pane: String,
}

/// A row of the table of commands.
pub struct ProcessRecord {
    pub label: String,
    pub started_at: i64,
    pub running: i64,
    pub finished: i64,
    pub acked: i64,
    pub finished_at: Option<i64>,
    pub exit_status: Option<i64>,
    pub shell: i64,
    pub tmux: i64,
    pub orchestrator_id: i64,
}

/// A row of the table of agents.
pub struct AgentRecord {
    pub kind: String,
    pub started_at: i64,
    pub status: i64,
    pub acked: i64,
    pub shell: i64,
    pub tmux: i64,
    pub orchestrator_id: i64,
}

/// The tables, each with the largest number that it ever gave to a row.
pub struct Tables {
    pub shells: Map<i64, ShellRecord>,
    pub tmux: Map<i64, TmuxRecord>,
    pub processes: Map<i64, ProcessRecord>,
    pub agents: Map<i64, AgentRecord>,
    pub last_shell: i64,
    pub last_tmux: i64,
    pub last_process: i64,
    pub last_agent: i64,
}

impl ProcessRecord {
    /// The columns that tell the state.
    pub open spec fn state_row(self) -> StateRow {
        StateRow {
            running: Ok(self.running),
            finished: Ok(self.finished),
            acked: Ok(self.acked),
            finished_at: Ok(self.finished_at),
            exit_status: Ok(self.exit_status),
        }
    }

    /// The state that the row stands for.
    pub open spec fn state(self) -> ProcessState {
        lifecycle_of(self.state_row())->0
    }

    /// Whether the row refers to a host.
    pub open spec fn refers_to(self, tmux: bool, id: i64) -> bool {
        (if tmux {
            self.tmux
        } else {
            self.shell
        }) == 1 && self.orchestrator_id == id
    }
}

impl AgentRecord {
    /// The columns that tell the state.
    pub open spec fn state_row(self) -> AgentStateRow {
        AgentStateRow { status: Ok(self.status), acked: Ok(self.acked) }
    }

    /// The status that the row stands for, and whether it is acknowledged.
    pub open spec fn state(self) -> (AgentStatus, bool) {
        agent_state_of(self.state_row())
    }

    /// Whether the row refers to a host.
    pub open spec fn refers_to(self, tmux: bool, id: i64) -> bool {
        (if tmux {
            self.tmux
        } else {
            self.shell
        }) == 1 && self.orchestrator_id == id
    }
}

impl Tables {
    /// Whether any item refers to a host.
    pub open spec fn referred(self, tmux: bool, id: i64) -> bool {
        ||| exists|p: i64| #[trigger]
            self.processes.contains_key(p) && self.processes[p].refers_to(tmux, id)
        ||| exists|a: i64| #[trigger]
            self.agents.contains_key(a) && self.agents[a].refers_to(tmux, id)
    }

    /// Whether the flags and the number of a row refer to a host that exists.
    pub open spec fn has_host(self, shell: i64, tmux: i64, id: i64) -> bool {
        ||| shell == 1 && tmux == 0 && self.shells.contains_key(id)
        ||| shell == 0 && tmux == 1 && self.tmux.contains_key(id)
    }

    /// Whether the row of a command has a number that was given out, a label, a state
    /// and a host.
    pub open spec fn sound_process(self, id: i64) -> bool {
        let row = self.processes[id];
        &&& 0 < id <= self.last_process
        &&& row.label@.len() > 0
        &&& state_fault(row.state_row()) is None
        &&& self.has_host(row.shell, row.tmux, row.orchestrator_id)
    }

    /// Whether the row of an agent has a number that was given out, a kind, a start, a
    /// status and a host.
    pub open spec fn sound_agent(self, id: i64) -> bool {
        let row = self.agents[id];
        &&& 0 < id <= self.last_agent
        &&& !blank(row.kind@)
        &&& row.started_at >= 0
        &&& agent_state_fault(row.state_row()) is None
        &&& self.has_host(row.shell, row.tmux, row.orchestrator_id)
    }

    /// What holds of the tables at any time: rows have the numbers that were
    /// given out, stand for a state, and refer to hosts that exist.
    pub open spec fn wf(self) -> bool {
        &&& self.processes.dom().finite() && self.agents.dom().finite()
        &&& 0 <= self.last_shell && 0 <= self.last_tmux && 0 <= self.last_process && 0
            <= self.last_agent
        &&& forall|id: i64| #[trigger]
            self.shells.contains_key(id) ==> 0 < id <= self.last_shell
        &&& forall|id: i64| #[trigger]
            self.tmux.contains_key(id) ==> 0 < id <= self.last_tmux && self.tmux[id].pane@.len() > 0
        &&& forall|id: i64| #[trigger] self.processes.contains_key(id) ==> self.sound_process(id)
        &&& forall|id: i64| #[trigger] self.agents.contains_key(id) ==> self.sound_agent(id)
    }

    /// Whether each host is one that some item refers to.
    pub open spec fn no_orphans(self) -> bool {
        &&& forall|id: i64| #[trigger] self.shells.contains_key(id) ==> self.referred(false, id)
        &&& forall|id: i64| #[trigger] self.tmux.contains_key(id) ==> self.referred(true, id)
    }

    /// Whether the tables can come of earlier ones: items were removed, got numbers
    /// that had not been given out, or went on in their lives.
    pub open spec fn continues(self, earlier: Tables) -> bool {
        &&& earlier.last_process <= self.last_process
        &&& earlier.last_agent <= self.last_agent
        &&& forall|id: i64| #[trigger]
            self.processes.contains_key(id) && id <= earlier.last_process
                ==> earlier.processes.contains_key(id) && went_on(
                earlier.processes[id].state(),
                self.processes[id].state(),
            )
        &&& forall|id: i64| #[trigger]
            self.agents.contains_key(id) && id <= earlier.last_agent
                ==> earlier.agents.contains_key(id) && reachable(
                earlier.agents[id].state().0,
                self.agents[id].state().0,
            )
    }

    /// Whether the tables can give out the numbers that a job needs.
    pub open spec fn has_room(self, job: Job) -> bool {
        match job {
            Job::StartProcess { pane, .. } => self.has_host_room(pane is Some)
                && self.last_process < i64::MAX,
            Job::CreateAgent { pane, .. } => self.has_host_room(pane is Some) && self.last_agent
                < i64::MAX,
            _ => true,
        }
    }

    /// Whether another host can get a number.
    pub open spec fn has_host_room(self, tmux: bool) -> bool {
        if tmux {
            self.last_tmux < i64::MAX
        } else {
            self.last_shell < i64::MAX
        }
    }
}

/// Whether a command can have gone on from one state to another: an end that it
/// had is still its end, and it is at least as far along.
pub open spec fn went_on(from: ProcessState, to: ProcessState) -> bool {
    !from.conflicts(to) && from.rank() <= to.rank()
}

/// What comes of tables that came of others came of those too.
pub proof fn tables_go_on(first: Tables, second: Tables, third: Tables)
    requires
        second.continues(first),
        third.continues(second),
    ensures
        third.continues(first),
{
    assert forall|id: i64| #[trigger]
        third.processes.contains_key(id) && id
            <= first.last_process implies first.processes.contains_key(id) && went_on(
        first.processes[id].state(),
        third.processes[id].state(),
    ) by {
        assert(second.processes.contains_key(id));
    }
    assert forall|id: i64| #[trigger]
        third.agents.contains_key(id) && id
            <= first.last_agent implies first.agents.contains_key(id) && reachable(
        first.agents[id].state().0,
        third.agents[id].state().0,
    ) by {
        assert(second.agents.contains_key(id));
    }
}

/// A new command.
pub open spec fn new_process(
    label: String,
    started_at: i64,
    tmux: bool,
    orchestrator_id: i64,
) -> ProcessRecord {
    ProcessRecord {
        label,
        started_at,
        running: 1,
        finished: 0,
        acked: 0,
        finished_at: None,
        exit_status: None,
        shell: if tmux {
            0
        } else {
            1
        },
        tmux: if tmux {
            1
        } else {
            0
        },
        orchestrator_id,
    }
}

/// A new agent.
pub open spec fn new_agent(
    kind: String,
    started_at: i64,
    tmux: bool,
    orchestrator_id: i64,
) -> AgentRecord {
    AgentRecord {
        kind,
        started_at,
        status: 1,
        acked: 0,
        shell: if tmux {
            0
        } else {
            1
        },
        tmux: if tmux {
            1
        } else {
            0
        },
        orchestrator_id,
    }
}

/// Whether the table of agents accepts a kind: what is left once spaces are taken
/// from its ends has a length, and SQLite counts that up to the first character
/// with the code zero.
pub open spec fn kind_accepted(kind: Seq<char>) -> bool {
    exists|i: int|
        0 <= i < kind.len() && #[trigger] kind[i] != ' ' && kind[i] != '\0' && forall|j: int|
            0 <= j < i ==> kind[j] == ' '
}

/// The failure of a statement whose row is refused by the table; its wording is
/// that of SQLite.
pub open spec fn check_failure() -> Failure {
    Failure { code: FailureCode::Other, detail: arbitrary() }
}

/// What SQLite is taken to do with a statement: what becomes of the tables, and
/// what is answered, while they can give out the numbers that it needs. Nothing
/// proves this of the SQL text of the statement.
pub open spec fn executed(t: Tables, statement: Statement) -> (Tables, Answer) {
    match statement {
        Statement::InsertShell { cwd } => {
            let id = (t.last_shell + 1) as i64;
            (
                Tables {
                    shells: t.shells.insert(id, ShellRecord { cwd }),
                    last_shell: id,
                    ..t
                },
                Answer::Inserted(id),
            )
        },
        Statement::InsertTmux { cwd, pane } => {
            let id = (t.last_tmux + 1) as i64;
            (
                Tables {
                    tmux: t.tmux.insert(id, TmuxRecord { cwd, pane }),
                    last_tmux: id,
                    ..t
                },
                Answer::Inserted(id),
            )
        },
        Statement::InsertProcess { label, started_at, tmux, orchestrator_id } => {
            let id = (t.last_process + 1) as i64;
            (
                Tables {
                    processes: t.processes.insert(
                        id,
                        new_process(label, started_at, tmux, orchestrator_id),
                    ),
                    last_process: id,
                    ..t
                },
                Answer::Inserted(id),
            )
        },
        Statement::InsertAgent { kind, started_at, tmux, orchestrator_id } => if !kind_accepted(
            kind@,
        ) {
            (t, Answer::Failed(check_failure()))
        } else {
            let id = (t.last_agent + 1) as i64;
            (
                Tables {
                    agents: t.agents.insert(
                        id,
                        new_agent(kind, started_at, tmux, orchestrator_id),
                    ),
                    last_agent: id,
                    ..t
                },
                Answer::Inserted(id),
            )
        },
        Statement::ReadState { id } => (
            t,
            Answer::State(
                if t.processes.contains_key(id) {
                    Some(t.processes[id].state_row())
                } else {
                    None
                },
            ),
        ),
        Statement::ReadAgentState { id } => (
            t,
            Answer::AgentState(
                if t.agents.contains_key(id) {
                    Some(t.agents[id].state_row())
                } else {
                    None
                },
            ),
        ),
        Statement::FinishProcess { id, finished_at, exit_status } => if t.processes.contains_key(id)
            && t.processes[id].running == 1 {
            (
                Tables {
                    processes: t.processes.insert(
                        id,
                        ProcessRecord {
                            running: 0,
                            finished: 1,
                            acked: 0,
                            finished_at: Some(finished_at),
                            exit_status: Some(exit_status as i64),
                            ..t.processes[id]
                        },
                    ),
                    ..t
                },
                Answer::Changed(1),
            )
        } else {
            (t, Answer::Changed(0))
        },
        Statement::AcknowledgeProcess { id } => if t.processes.contains_key(id)
            && t.processes[id].finished == 1 {
            (
                Tables {
                    processes: t.processes.insert(
                        id,
                        ProcessRecord { finished: 0, acked: 1, ..t.processes[id] },
                    ),
                    ..t
                },
                Answer::Changed(1),
            )
        } else {
            (t, Answer::Changed(0))
        },
        Statement::SetStatus { id, next, current, acknowledged } => if t.agents.contains_key(id)
            && t.agents[id].status == status_code(current) && t.agents[id].acked == (if acknowledged {
            1i64
        } else {
            0i64
        }) {
            (
                Tables {
                    agents: t.agents.insert(
                        id,
                        AgentRecord { status: status_code(next), acked: 0, ..t.agents[id] },
                    ),
                    ..t
                },
                Answer::Changed(1),
            )
        } else {
            (t, Answer::Changed(0))
        },
        Statement::AcknowledgeAgent { id } => if t.agents.contains_key(id) && t.agents[id].status
            == 4 && t.agents[id].acked == 0 {
            (
                Tables {
                    agents: t.agents.insert(id, AgentRecord { acked: 1, ..t.agents[id] }),
                    ..t
                },
                Answer::Changed(1),
            )
        } else {
            (t, Answer::Changed(0))
        },
        Statement::ReadReference { table: Table::Processes, id } => (
            t,
            Answer::Reference(
                if t.processes.contains_key(id) {
                    Some(
                        (
                            t.processes[id].shell,
                            t.processes[id].tmux,
                            t.processes[id].orchestrator_id,
                        ),
                    )
                } else {
                    None
                },
            ),
        ),
        Statement::ReadReference { table: Table::Agents, id } => (
            t,
            Answer::Reference(
                if t.agents.contains_key(id) {
                    Some((t.agents[id].shell, t.agents[id].tmux, t.agents[id].orchestrator_id))
                } else {
                    None
                },
            ),
        ),
        Statement::DeleteRow { table: Table::Processes, id } => (
            Tables { processes: t.processes.remove(id), ..t },
            Answer::Changed(
                if t.processes.contains_key(id) {
                    1
                } else {
                    0
                },
            ),
        ),
        Statement::DeleteRow { table: Table::Agents, id } => (
            Tables { agents: t.agents.remove(id), ..t },
            Answer::Changed(
                if t.agents.contains_key(id) {
                    1
                } else {
                    0
                },
            ),
        ),
        Statement::CountReferences { tmux, id } => (t, Answer::Count(reference_count(t, tmux, id))),
        Statement::DeleteHost { tmux: false, id } => (
            Tables { shells: t.shells.remove(id), ..t },
            Answer::Changed(
                if t.shells.contains_key(id) {
                    1
                } else {
                    0
                },
            ),
        ),
        Statement::DeleteHost { tmux: true, id } => (
            Tables { tmux: t.tmux.remove(id), ..t },
            Answer::Changed(
                if t.tmux.contains_key(id) {
                    1
                } else {
                    0
                },
            ),
        ),
    }
}

/// The commands that refer to a host.
pub open spec fn referring_processes(t: Tables, tmux: bool, id: i64) -> Set<i64> {
    t.processes.dom().filter(|p: i64| t.processes[p].refers_to(tmux, id))
}

/// The agents that refer to a host.
pub open spec fn referring_agents(t: Tables, tmux: bool, id: i64) -> Set<i64> {
    t.agents.dom().filter(|a: i64| t.agents[a].refers_to(tmux, id))
}

/// How many items refer to a host, up to the largest number there is.
pub open spec fn reference_count(t: Tables, tmux: bool, id: i64) -> i64 {
    let count = referring_processes(t, tmux, id).len() + referring_agents(t, tmux, id).len();
    if count > i64::MAX {
        i64::MAX
    } else {
        count as i64
    }
}

/// A host is counted exactly where some item refers to it.
pub proof fn lemma_reference_count(t: Tables, tmux: bool, id: i64)
    requires
        t.processes.dom().finite(),
        t.agents.dom().finite(),
    ensures
        reference_count(t, tmux, id) == 0 <==> !t.referred(tmux, id),
{
    let processes = referring_processes(t, tmux, id);
    let agents = referring_agents(t, tmux, id);
    if t.referred(tmux, id) {
        if processes.len() == 0 && agents.len() == 0 {
            processes.lemma_len0_is_empty();
            agents.lemma_len0_is_empty();
            if exists|p: i64| #[trigger]
                t.processes.contains_key(p) && t.processes[p].refers_to(tmux, id) {
                let p = choose|p: i64| #[trigger]
                    t.processes.contains_key(p) && t.processes[p].refers_to(tmux, id);
                assert(processes.contains(p));
            } else {
                let a = choose|a: i64| #[trigger]
                    t.agents.contains_key(a) && t.agents[a].refers_to(tmux, id);
                assert(agents.contains(a));
            }
        }
    } else {
        assert(processes =~= Set::empty());
        assert(agents =~= Set::empty());
    }
}

/// The columns of the hosts beside a row that refers to one of them.
pub open spec fn host_row(t: Tables, shell: i64, tmux: i64, id: i64) -> HostRow {
    let in_shells = shell == 1 && t.shells.contains_key(id);
    let in_tmux = tmux == 1 && t.tmux.contains_key(id);
    HostRow {
        shell: Ok(shell),
        tmux: Ok(tmux),
        orchestrator_id: Ok(id),
        shell_id: Ok(
            if in_shells {
                Some(id)
            } else {
                None
            },
        ),
        shell_cwd: if in_shells {
            Ok(t.shells[id].cwd)
        } else {
            Err(arbitrary())
        },
        tmux_id: Ok(
            if in_tmux {
                Some(id)
            } else {
                None
            },
        ),
        tmux_cwd: if in_tmux {
            Ok(t.tmux[id].cwd)
        } else {
            Err(arbitrary())
        },
        tmux_pane: if in_tmux {
            Ok(t.tmux[id].pane)
        } else {
            Err(arbitrary())
        },
    }
}

/// The row that is read for a command.
pub open spec fn process_row(t: Tables, id: i64) -> ProcessRow {
    let row = t.processes[id];
    ProcessRow {
        id: Ok(id),
        label: Ok(row.label),
        started_at: Ok(row.started_at),
        state: row.state_row(),
        host: host_row(t, row.shell, row.tmux, row.orchestrator_id),
    }
}

/// The row that is read for an agent.
pub open spec fn agent_row(t: Tables, id: i64) -> AgentRow {
    let row = t.agents[id];
    AgentRow {
        id: Ok(id),
        kind: Ok(row.kind),
        started_at: Ok(row.started_at),
        state: row.state_row(),
        host: host_row(t, row.shell, row.tmux, row.orchestrator_id),
    }
}

/// Whether a query asks for a command.
pub open spec fn selects_process(query: ProcessQuery, id: i64, row: ProcessRecord) -> bool {
    match query {
        ProcessQuery::One { id: wanted } => id == wanted,
        ProcessQuery::Running => row.running == 1,
        ProcessQuery::Unacked => row.acked == 0,
        ProcessQuery::All => true,
        ProcessQuery::Range { after, through, .. } => after < id <= through,
    }
}

/// Whether a query asks for an agent.
pub open spec fn selects_agent(query: AgentQuery, id: i64, row: AgentRecord) -> bool {
    match query {
        AgentQuery::One { id: wanted } => id == wanted,
        AgentQuery::Active => row.acked == 0 && row.status != 5,
        AgentQuery::Unkilled => row.status != 5,
        AgentQuery::All => true,
        AgentQuery::Range { after, through, .. } => after < id <= through,
    }
}

/// Whether numbers are those of the commands that a query asks for, in its
/// order: newest first, or by number up to a limit.
pub open spec fn answers_processes(t: Tables, query: ProcessQuery, ids: Seq<i64>) -> bool {
    &&& forall|i: int|
        0 <= i < ids.len() ==> t.processes.contains_key(#[trigger] ids[i]) && selects_process(
            query,
            ids[i],
            t.processes[ids[i]],
        )
    &&& if query is Range {
        &&& ids.len() <= query->Range_limit
        &&& forall|i: int, j: int| 0 <= i < j < ids.len() ==> ids[i] < ids[j]
        &&& forall|id: i64| #[trigger]
            t.processes.contains_key(id) && selects_process(query, id, t.processes[id])
                ==> ids.contains(id) || ids.len() == query->Range_limit && ids.last() < id
    } else {
        &&& forall|i: int, j: int|
            0 <= i < j < ids.len() ==> newer(
                t.processes[ids[i]].started_at,
                ids[i],
                t.processes[ids[j]].started_at,
                ids[j],
            )
        &&& forall|id: i64| #[trigger]
            t.processes.contains_key(id) && selects_process(query, id, t.processes[id])
                ==> ids.contains(id)
    }
}

/// Whether numbers are those of the agents that a query asks for, in its order:
/// newest first, or by number up to a limit.
pub open spec fn answers_agents(t: Tables, query: AgentQuery, ids: Seq<i64>) -> bool {
    &&& forall|i: int|
        0 <= i < ids.len() ==> t.agents.contains_key(#[trigger] ids[i]) && selects_agent(
            query,
            ids[i],
            t.agents[ids[i]],
        )
    &&& if query is Range {
        &&& ids.len() <= query->Range_limit
        &&& forall|i: int, j: int| 0 <= i < j < ids.len() ==> ids[i] < ids[j]
        &&& forall|id: i64| #[trigger]
            t.agents.contains_key(id) && selects_agent(query, id, t.agents[id]) ==> ids.contains(id)
                || ids.len() == query->Range_limit && ids.last() < id
    } else {
        &&& forall|i: int, j: int|
            0 <= i < j < ids.len() ==> newer(
                t.agents[ids[i]].started_at,
                ids[i],
                t.agents[ids[j]].started_at,
                ids[j],
            )
        &&& forall|id: i64| #[trigger]
            t.agents.contains_key(id) && selects_agent(query, id, t.agents[id]) ==> ids.contains(id)
    }
}

/// The order in which lists are given: later starts first, and larger numbers
/// first among equal starts.
pub open spec fn newer(left_start: i64, left: i64, right_start: i64, right: i64) -> bool {
    left_start > right_start || left_start == right_start && left > right
}

/// A range of commands skips none: each command behind `after` is in it, up to
/// the last of them or, where there is none, up to `through`.
pub proof fn process_ranges_skip_nothing(
    t: Tables,
    after: i64,
    through: i64,
    limit: i64,
    ids: Seq<i64>,
    id: i64,
)
    requires
        answers_processes(t, ProcessQuery::Range { after, through, limit }, ids),
        limit > 0,
        after < through,
        t.processes.contains_key(id),
        after < id <= (if ids.len() == 0 {
            through
        } else {
            ids.last()
        }),
    ensures
        ids.contains(id),
        ids.len() > 0 && after < ids.last() <= through,
{
    let query = ProcessQuery::Range { after, through, limit };
    if ids.len() > 0 {
        assert(selects_process(query, ids[ids.len() - 1], t.processes[ids[ids.len() - 1]]));
    }
    assert(selects_process(query, id, t.processes[id]));
}

/// A range of agents skips none: each agent behind `after` is in it, up to the
/// last of them or, where there is none, up to `through`.
pub proof fn agent_ranges_skip_nothing(
    t: Tables,
    after: i64,
    through: i64,
    limit: i64,
    ids: Seq<i64>,
    id: i64,
)
    requires
        answers_agents(t, AgentQuery::Range { after, through, limit }, ids),
        limit > 0,
        after < through,
        t.agents.contains_key(id),
        after < id <= (if ids.len() == 0 {
            through
        } else {
            ids.last()
        }),
    ensures
        ids.contains(id),
        ids.len() > 0 && after < ids.last() <= through,
{
    let query = AgentQuery::Range { after, through, limit };
    if ids.len() > 0 {
        assert(selects_agent(query, ids[ids.len() - 1], t.agents[ids[ids.len() - 1]]));
    }
    assert(selects_agent(query, id, t.agents[id]));
}

/// In sound tables each agent can be read.
pub proof fn sound_agents_can_be_read(t: Tables, id: i64)
    requires
        t.wf(),
        t.agents.contains_key(id),
    ensures
        agent_fault(agent_row(t, id)) is None,
{
    assert(t.sound_agent(id));
}

/// In sound tables each command can be read that did not end before it started.
pub proof fn sound_processes_can_be_read(t: Tables, id: i64)
    requires
        t.wf(),
        t.processes.contains_key(id),
        t.processes[id].finished_at matches Some(time) ==> t.processes[id].started_at <= time,
    ensures
        process_fault(process_row(t, id)) is None,
{
    assert(t.sound_process(id));
}

/// Whether all items can be read.
pub open spec fn readable(t: Tables) -> bool {
    &&& forall|id: i64| #[trigger]
        t.processes.contains_key(id) ==> process_fault(process_row(t, id)) is None
    &&& forall|id: i64| #[trigger]
        t.agents.contains_key(id) ==> agent_fault(agent_row(t, id)) is None
}

/// The answer of the tables about the agents with the given numbers.
pub open spec fn agent_state_rows(t: Tables, ids: Seq<i64>) -> Seq<AgentStatusRow> {
    ids.map_values(|id: i64| AgentStatusRow { id: Ok(id), state: t.agents[id].state_row() })
}

/// What that answer stands for.
pub open spec fn agent_states_of(t: Tables, ids: Seq<i64>) -> Seq<(i64, AgentStatus, bool)> {
    ids.map_values(|id: i64| (id, t.agents[id].state().0, t.agents[id].state().1))
}

/// The answer of the tables about the commands with the given numbers.
pub open spec fn process_state_rows(t: Tables, ids: Seq<i64>) -> Seq<ProcessStateRow> {
    ids.map_values(|id: i64| ProcessStateRow { id: Ok(id), state: t.processes[id].state_row() })
}

/// What that answer stands for.
pub open spec fn process_states_of(t: Tables, ids: Seq<i64>) -> Seq<(i64, ProcessState)> {
    ids.map_values(|id: i64| (id, t.processes[id].state()))
}

/// Whether rows tell the states of those agents with the given numbers that exist,
/// each once.
pub open spec fn tells_of_agents(
    t: Tables,
    ids: Seq<i64>,
    rows: Seq<AgentStatusRow>,
    found: Seq<i64>,
) -> bool {
    &&& found.no_duplicates()
    &&& forall|id: i64| #[trigger]
        found.contains(id) <==> ids.contains(id) && t.agents.contains_key(id)
    &&& rows == agent_state_rows(t, found)
}

/// Whether an answer about agents with the given numbers is that of the tables, where
/// it is one: the database may fail to answer at any time.
pub open spec fn answers_agent_states(t: Tables, ids: Seq<i64>, fetch: Fetch<AgentStatusRow>) -> bool {
    fetch matches Fetch::Rows { rows, failure: None } ==> exists|found: Seq<i64>| #[trigger]
        tells_of_agents(t, ids, rows@, found)
}

/// Whether rows tell the states of those commands with the given numbers that exist,
/// each once.
pub open spec fn tells_of_processes(
    t: Tables,
    ids: Seq<i64>,
    rows: Seq<ProcessStateRow>,
    found: Seq<i64>,
) -> bool {
    &&& found.no_duplicates()
    &&& forall|id: i64| #[trigger]
        found.contains(id) <==> ids.contains(id) && t.processes.contains_key(id)
    &&& rows == process_state_rows(t, found)
}

/// Whether an answer about commands with the given numbers is that of the tables, where
/// it is one: the database may fail to answer at any time.
pub open spec fn answers_process_states(t: Tables, ids: Seq<i64>, fetch: Fetch<ProcessStateRow>) -> bool {
    fetch matches Fetch::Rows { rows, failure: None } ==> exists|found: Seq<i64>| #[trigger]
        tells_of_processes(t, ids, rows@, found)
}

/// Whether a number is the largest of some, or there are none.
pub open spec fn is_latest(ids: Set<i64>, latest: Option<i64>) -> bool {
    match latest {
        None => forall|id: i64| !ids.contains(id),
        Some(last) => ids.contains(last) && forall|id: i64| #[trigger]
            ids.contains(id) ==> id <= last,
    }
}

/// A list of commands is the list of all commands without those that were not asked
/// for, in unchanged order.
pub proof fn process_lists_are_parts_of_the_full_list(
    t: Tables,
    query: ProcessQuery,
    all: Seq<i64>,
    ids: Seq<i64>,
)
    requires
        !(query is Range),
        answers_processes(t, ProcessQuery::All, all),
        answers_processes(t, query, ids),
    ensures
        ids == all.filter(|id: i64| selects_process(query, id, t.processes[id])),
{
    let asked = |id: i64| selects_process(query, id, t.processes[id]);
    let before = |left: i64, right: i64|
        newer(t.processes[left].started_at, left, t.processes[right].started_at, right);
    filtering_keeps_order(all, asked, before);
    let kept = all.filter(asked);
    assert forall|id: i64| ids.contains(id) <==> kept.contains(id) by {
        if ids.contains(id) {
            let i = ids.index_of(id);
            assert(t.processes.contains_key(ids[i]));
            assert(selects_process(ProcessQuery::All, id, t.processes[id]));
            assert(all.contains(id));
        }
        if kept.contains(id) {
            let i = all.index_of(id);
            assert(t.processes.contains_key(all[i]));
        }
    }
    order_fixes_a_list(ids, kept, before);
}

/// A list of agents is the list of all agents without those that were not asked
/// for, in unchanged order.
pub proof fn agent_lists_are_parts_of_the_full_list(
    t: Tables,
    query: AgentQuery,
    all: Seq<i64>,
    ids: Seq<i64>,
)
    requires
        !(query is Range),
        answers_agents(t, AgentQuery::All, all),
        answers_agents(t, query, ids),
    ensures
        ids == all.filter(|id: i64| selects_agent(query, id, t.agents[id])),
{
    let asked = |id: i64| selects_agent(query, id, t.agents[id]);
    let before = |left: i64, right: i64|
        newer(t.agents[left].started_at, left, t.agents[right].started_at, right);
    filtering_keeps_order(all, asked, before);
    let kept = all.filter(asked);
    assert forall|id: i64| ids.contains(id) <==> kept.contains(id) by {
        if ids.contains(id) {
            let i = ids.index_of(id);
            assert(t.agents.contains_key(ids[i]));
            assert(selects_agent(AgentQuery::All, id, t.agents[id]));
            assert(all.contains(id));
        }
        if kept.contains(id) {
            let i = all.index_of(id);
            assert(t.agents.contains_key(all[i]));
        }
    }
    order_fixes_a_list(ids, kept, before);
}

/// When a command ended; one without an end stands before all others.
pub open spec fn end_of(row: ProcessRecord) -> int {
    match row.finished_at {
        Some(time) => time as int,
        None => i64::MIN - 1,
    }
}

/// The order in which items are collected: earlier times first, and smaller
/// numbers first among equal times.
pub open spec fn older(left_time: int, left: i64, right_time: int, right: i64) -> bool {
    left_time < right_time || left_time == right_time && left < right
}

/// The commands that may be collected: the acknowledged ones.
pub open spec fn collectible_processes(t: Tables) -> Set<i64> {
    t.processes.dom().filter(|id: i64| t.processes[id].acked == 1)
}

/// The agents that may be collected: the killed ones.
pub open spec fn collectible_agents(t: Tables) -> Set<i64> {
    t.agents.dom().filter(|id: i64| t.agents[id].status == 5)
}

/// Whether numbers are those of the commands that are collected next: acknowledged ones, those that ended
/// first, and no more than are collected at a time.
pub open spec fn answers_collectible_processes(t: Tables, ids: Seq<i64>) -> bool {
    &&& ids.len() <= COLLECT_BATCH
    &&& forall|i: int|
        0 <= i < ids.len() ==> collectible_processes(t).contains(#[trigger] ids[i])
    &&& forall|i: int, j: int|
        0 <= i < j < ids.len() ==> older(
            end_of(t.processes[ids[i]]),
            #[trigger] ids[i],
            end_of(t.processes[ids[j]]),
            #[trigger] ids[j],
        )
    &&& forall|id: i64| #[trigger]
        collectible_processes(t).contains(id) ==> ids.contains(id) || ids.len() == COLLECT_BATCH
            && older(end_of(t.processes[ids.last()]), ids.last(), end_of(t.processes[id]), id)
}

/// Whether numbers are those of the agents that are collected next: killed ones, those that started
/// first, and no more than are collected at a time.
pub open spec fn answers_collectible_agents(t: Tables, ids: Seq<i64>) -> bool {
    &&& ids.len() <= COLLECT_BATCH
    &&& forall|i: int|
        0 <= i < ids.len() ==> collectible_agents(t).contains(#[trigger] ids[i])
    &&& forall|i: int, j: int|
        0 <= i < j < ids.len() ==> older(
            t.agents[ids[i]].started_at as int,
            #[trigger] ids[i],
            t.agents[ids[j]].started_at as int,
            #[trigger] ids[j],
        )
    &&& forall|id: i64| #[trigger]
        collectible_agents(t).contains(id) ==> ids.contains(id) || ids.len() == COLLECT_BATCH
            && older(t.agents[ids.last()].started_at as int, ids.last(), t.agents[id].started_at as int, id)
}

} // verus!
