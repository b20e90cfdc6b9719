//! The questions that are put to the database, and their answers.

use vstd::prelude::*;
use vstd::string::*;

use crate::error::{Error, Failure};
use crate::rows::{AgentStateRow, StateRow};
use crate::text::joined;

verus! {

/// The columns of a command and of its host.
pub const SELECT_PROCESS: &'static str = "SELECT p.id,p.label,p.started_at,p.running,p.finished,p.acked,p.finished_at,p.exit_status,p.shell,p.tmux,p.orchestrator_id,s.id,s.cwd,t.id,t.cwd,t.pane FROM processes p LEFT JOIN shells s ON p.shell=1 AND s.id=p.orchestrator_id LEFT JOIN tmux t ON p.tmux=1 AND t.id=p.orchestrator_id ";

/// The columns of an agent and of its host.
pub const SELECT_AGENT: &'static str = "SELECT a.id,a.kind,a.started_at,a.status,a.acked,a.shell,a.tmux,a.orchestrator_id,s.id,s.cwd,t.id,t.cwd,t.pane FROM agents a LEFT JOIN shells s ON a.shell=1 AND s.id=a.orchestrator_id LEFT JOIN tmux t ON a.tmux=1 AND t.id=a.orchestrator_id ";

/// How many states are asked for at a time.
pub const STATE_CHUNK: usize = 900;

/// Which commands are asked for.
#[derive(Clone, Copy, Debug, PartialEq, Eq, Structural)]
pub enum ProcessQuery {
    One { id: i64 },
    Running,
    Unacked,
    All,
    Range { after: i64, through: i64, limit: i64 },
}

/// Which agents are asked for.
#[derive(Clone, Copy, Debug, PartialEq, Eq, Structural)]
pub enum AgentQuery {
    One { id: i64 },
    Active,
    Unkilled,
    All,
    Range { after: i64, through: i64, limit: i64 },
}

/// An answer of the database, row by row.
pub enum Fetch<R> {
    /// There is no database yet.
    Absent,
    /// The database could not be asked.
    Refused(Error),
    /// The rows, up to a failure where there was one.
    Rows { rows: Vec<R>, failure: Option<Failure> },
}

/// The state of a command.
pub struct ProcessStateRow {
    pub id: Result<i64, String>,
    pub state: StateRow,
}

/// The state of an agent.
pub struct AgentStatusRow {
    pub id: Result<i64, String>,
    pub state: AgentStateRow,
}

impl ProcessQuery {
    /// What stands behind the columns.
    pub open spec fn suffix(self) -> Seq<char> {
        match self {
            ProcessQuery::One { .. } => "WHERE p.id=?1"@,
            ProcessQuery::Running => "WHERE p.running=1 ORDER BY p.started_at DESC,p.id DESC"@,
            ProcessQuery::Unacked => "WHERE p.acked=0 ORDER BY p.started_at DESC,p.id DESC"@,
            ProcessQuery::All => "ORDER BY p.started_at DESC,p.id DESC"@,
            ProcessQuery::Range { .. } =>
            "WHERE p.id>?1 AND p.id<=?2 ORDER BY p.id ASC LIMIT ?3"@,
        }
    }

    /// The values of the parameters.
    pub open spec fn values(self) -> Seq<i64> {
        match self {
            ProcessQuery::One { id } => seq![id],
            ProcessQuery::Range { after, through, limit } => seq![after, through, limit],
            _ => seq![],
        }
    }

    /// The statement.
    pub fn sql(&self) -> (r: String)
        ensures
            r@ == SELECT_PROCESS@ + self.suffix(),
    {
        let suffix: &str = match self {
            ProcessQuery::One { .. } => "WHERE p.id=?1",
            ProcessQuery::Running => "WHERE p.running=1 ORDER BY p.started_at DESC,p.id DESC",
            ProcessQuery::Unacked => "WHERE p.acked=0 ORDER BY p.started_at DESC,p.id DESC",
            ProcessQuery::All => "ORDER BY p.started_at DESC,p.id DESC",
            ProcessQuery::Range { .. } => "WHERE p.id>?1 AND p.id<=?2 ORDER BY p.id ASC LIMIT ?3",
        };
        SELECT_PROCESS.to_owned().concat(suffix)
    }

    /// The values of its parameters.
    pub fn params(&self) -> (r: Vec<i64>)
        ensures
            r@ == self.values(),
    {
        match self {
            ProcessQuery::One { id } => vec![*id],
            ProcessQuery::Range { after, through, limit } => vec![*after, *through, *limit],
            _ => Vec::new(),
        }
    }
}

impl AgentQuery {
    /// What stands behind the columns.
    pub open spec fn suffix(self) -> Seq<char> {
        match self {
            AgentQuery::One { .. } => "WHERE a.id=?1"@,
            AgentQuery::Active =>
            "WHERE a.acked=0 AND a.status!=5 ORDER BY a.started_at DESC,a.id DESC"@,
            AgentQuery::Unkilled => "WHERE a.status!=5 ORDER BY a.started_at DESC,a.id DESC"@,
            AgentQuery::All => "ORDER BY a.started_at DESC,a.id DESC"@,
            AgentQuery::Range { .. } => "WHERE a.id>?1 AND a.id<=?2 ORDER BY a.id ASC LIMIT ?3"@,
        }
    }

    /// The values of the parameters.
    pub open spec fn values(self) -> Seq<i64> {
        match self {
            AgentQuery::One { id } => seq![id],
            AgentQuery::Range { after, through, limit } => seq![after, through, limit],
            _ => seq![],
        }
    }

    /// The statement.
    pub fn sql(&self) -> (r: String)
        ensures
            r@ == SELECT_AGENT@ + self.suffix(),
    {
        let suffix: &str = match self {
            AgentQuery::One { .. } => "WHERE a.id=?1",
            AgentQuery::Active =>
            "WHERE a.acked=0 AND a.status!=5 ORDER BY a.started_at DESC,a.id DESC",
            AgentQuery::Unkilled => "WHERE a.status!=5 ORDER BY a.started_at DESC,a.id DESC",
            AgentQuery::All => "ORDER BY a.started_at DESC,a.id DESC",
            AgentQuery::Range { .. } => "WHERE a.id>?1 AND a.id<=?2 ORDER BY a.id ASC LIMIT ?3",
        };
        SELECT_AGENT.to_owned().concat(suffix)
    }

    /// The values of its parameters.
    pub fn params(&self) -> (r: Vec<i64>)
        ensures
            r@ == self.values(),
    {
        match self {
            AgentQuery::One { id } => vec![*id],
            AgentQuery::Range { after, through, limit } => vec![*after, *through, *limit],
            _ => Vec::new(),
        }
    }
}

/// The statement for the newest number of a command.
pub fn latest_process_sql() -> (r: &'static str)
    ensures
        r@ == "SELECT MAX(id) FROM processes"@,
{
    "SELECT MAX(id) FROM processes"
}

/// The statement for the newest number of an agent.
pub fn latest_agent_sql() -> (r: &'static str)
    ensures
        r@ == "SELECT MAX(id) FROM agents"@,
{
    "SELECT MAX(id) FROM agents"
}

/// As many question marks as asked for, with commas between them.
pub open spec fn placeholders(count: nat) -> Seq<char> {
    joined(Seq::new(count, |i: int| seq!['?']), seq![','])
}

fn placeholder_text(count: usize) -> (r: String)
    ensures
        r@ == placeholders(count as nat),
{
    let mut out: String = String::new();
    let mut i: usize = 0;
    while i < count
        invariant
            i <= count,
            out@ == placeholders(i as nat),
        decreases count - i,
    {
        proof {
            let parts = Seq::new((i + 1) as nat, |j: int| seq!['?']);
            assert(parts.drop_last() =~= Seq::new(i as nat, |j: int| seq!['?']));
        }
        if i > 0 {
            out.push(',');
        }
        out.push('?');
        i = i + 1;
        assert(out@ =~= placeholders(i as nat));
    }
    out
}

/// The statement for the states of as many commands.
pub fn process_states_sql(count: usize) -> (r: String)
    ensures
        r@
            == "SELECT id,running,finished,acked,finished_at,exit_status FROM processes WHERE id IN ("@
            + placeholders(count as nat) + ")"@,
{
    let mut out: String =
        "SELECT id,running,finished,acked,finished_at,exit_status FROM processes WHERE id IN (".to_owned();
    out.append(placeholder_text(count).as_str());
    out.append(")");
    out
}

/// The statement for the states of as many agents.
pub fn agent_states_sql(count: usize) -> (r: String)
    ensures
        r@ == "SELECT id,status,acked FROM agents WHERE id IN ("@ + placeholders(count as nat)
            + ")"@,
{
    let mut out: String = "SELECT id,status,acked FROM agents WHERE id IN (".to_owned();
    out.append(placeholder_text(count).as_str());
    out.append(")");
    out
}

/// The numbers of one chunk among many.
pub open spec fn chunk_of(ids: Seq<i64>, i: int) -> Seq<i64> {
    let start = i * STATE_CHUNK;
    let end = if start + STATE_CHUNK <= ids.len() {
        start + STATE_CHUNK
    } else {
        ids.len() as int
    };
    ids.subrange(start, end)
}

/// Splits numbers into chunks that fit into one statement.
pub fn state_chunks(ids: &Vec<i64>) -> (r: Vec<Vec<i64>>)
    ensures
        (r.len() - 1) * STATE_CHUNK < ids.len() || r.len() == 0,
        ids.len() <= r.len() * STATE_CHUNK,
        forall|i: int| 0 <= i < r.len() ==> #[trigger] r@[i]@ == chunk_of(ids@, i),
{
    let mut chunks: Vec<Vec<i64>> = Vec::new();
    let mut start: usize = 0;
    while start < ids.len()
        invariant
            start <= ids.len(),
            start == chunks.len() * STATE_CHUNK || start == ids.len(),
            start <= chunks.len() * STATE_CHUNK,
            (chunks.len() - 1) * STATE_CHUNK < ids.len() || chunks.len() == 0,
            forall|i: int|
                0 <= i < chunks.len() ==> #[trigger] chunks@[i]@ == chunk_of(ids@, i),
        decreases ids.len() - start,
    {
        let mut chunk: Vec<i64> = Vec::new();
        let mut i: usize = start;
        while i < ids.len() && chunk.len() < STATE_CHUNK
            invariant
                start <= i <= ids.len(),
                chunk.len() == i - start,
                chunk.len() <= STATE_CHUNK,
                chunk@ == ids@.subrange(start as int, i as int),
            decreases ids.len() - i,
        {
            chunk.push(ids[i]);
            i = i + 1;
            assert(chunk@ =~= ids@.subrange(start as int, i as int));
        }
        start = i;
        chunks.push(chunk);
    }
    chunks
}

} // verus!
