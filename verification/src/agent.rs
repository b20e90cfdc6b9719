//! A tracked agent runtime and its five statuses.

use vstd::prelude::*;
use vstd::string::*;

use crate::error::{about, Error};
use crate::orchestrator::{
    current_pane, detect, some_text, Environment, Orchestrator, OrchestratorSnapshot,
};
use crate::process::unit_of;
use crate::storage::{Job, Storage};
use crate::text::{blank, debug_of, debug_text, is_blank, same_text, signed};
use crate::time::{Span, Timestamp};

verus! {

/// Where an agent runtime stands.
#[derive(Clone, Copy, Debug, PartialEq, Eq, Structural)]
pub enum AgentStatus {
    Idle,
    Working,
    Waiting,
    Done,
    Killed,
}

/// The name of a status.
pub open spec fn status_text(status: AgentStatus) -> Seq<char> {
    match status {
        AgentStatus::Idle => "idle"@,
        AgentStatus::Working => "working"@,
        AgentStatus::Waiting => "waiting"@,
        AgentStatus::Done => "done"@,
        AgentStatus::Killed => "killed"@,
    }
}

/// The number that a status is stored as.
pub open spec fn status_code(status: AgentStatus) -> i64 {
    match status {
        AgentStatus::Idle => 1,
        AgentStatus::Working => 2,
        AgentStatus::Waiting => 3,
        AgentStatus::Done => 4,
        AgentStatus::Killed => 5,
    }
}

/// The changes of status that an agent may report. Reporting the current
/// status again is allowed.
pub open spec fn permitted(from: AgentStatus, to: AgentStatus) -> bool {
    ||| from == to
    ||| from == AgentStatus::Idle && (to == AgentStatus::Working || to == AgentStatus::Killed)
    ||| from == AgentStatus::Working && (to == AgentStatus::Waiting || to == AgentStatus::Done || to
        == AgentStatus::Killed)
    ||| from == AgentStatus::Waiting && (to == AgentStatus::Working || to == AgentStatus::Killed)
    ||| from == AgentStatus::Done && (to == AgentStatus::Working || to == AgentStatus::Killed)
}

/// The order in which statuses are listed.
pub open spec fn status_priority(status: AgentStatus) -> u8 {
    match status {
        AgentStatus::Waiting => 0,
        AgentStatus::Idle => 1,
        AgentStatus::Working => 2,
        AgentStatus::Done => 3,
        AgentStatus::Killed => 4,
    }
}

/// Whether a number of permitted changes leads from one status to another.
pub open spec fn reachable(from: AgentStatus, to: AgentStatus) -> bool {
    match from {
        AgentStatus::Idle => true,
        AgentStatus::Killed => to == AgentStatus::Killed,
        _ => to != AgentStatus::Idle,
    }
}

impl AgentStatus {
    /// The name of the status.
    pub fn as_str(self) -> (r: &'static str)
        ensures
            r@ == status_text(self),
    {
        match self {
            AgentStatus::Idle => "idle",
            AgentStatus::Working => "working",
            AgentStatus::Waiting => "waiting",
            AgentStatus::Done => "done",
            AgentStatus::Killed => "killed",
        }
    }

    /// The number that the status is stored as.
    pub fn code(self) -> (r: i64)
        ensures
            r == status_code(self),
    {
        match self {
            AgentStatus::Idle => 1,
            AgentStatus::Working => 2,
            AgentStatus::Waiting => 3,
            AgentStatus::Done => 4,
            AgentStatus::Killed => 5,
        }
    }

    /// The status with a name.
    pub fn parse(value: &str) -> (r: Result<Self, Error>)
        ensures
            match r {
                Ok(status) => value@ == status_text(status),
                Err(error) => {
                    &&& forall|status: AgentStatus| value@ != #[trigger] status_text(status)
                    &&& error.is_invalid("unknown agent status "@ + debug_text(value@))
                },
            },
    {
        if same_text(value, "idle") {
            Ok(AgentStatus::Idle)
        } else if same_text(value, "working") {
            Ok(AgentStatus::Working)
        } else if same_text(value, "waiting") {
            Ok(AgentStatus::Waiting)
        } else if same_text(value, "done") {
            Ok(AgentStatus::Done)
        } else if same_text(value, "killed") {
            Ok(AgentStatus::Killed)
        } else {
            Err(
                Error::Invalid(
                    "unknown agent status ".to_owned().concat(debug_of(value).as_str()),
                ),
            )
        }
    }

    /// The status that is stored as a number.
    pub fn from_database(value: i64) -> (r: Result<Self, Error>)
        ensures
            match r {
                Ok(status) => value == status_code(status),
                Err(error) => {
                    &&& !(1 <= value <= 5)
                    &&& error.is_corrupt("invalid agent status "@ + signed(value as int))
                },
            },
    {
        proof {
            reveal_strlit("");
        }
        match value {
            1 => Ok(AgentStatus::Idle),
            2 => Ok(AgentStatus::Working),
            3 => Ok(AgentStatus::Waiting),
            4 => Ok(AgentStatus::Done),
            5 => Ok(AgentStatus::Killed),
            _ => Err(Error::CorruptData(about("invalid agent status ", value, ""))),
        }
    }

    /// Whether an agent may report a status behind this one.
    pub fn permits(self, next: Self) -> (r: bool)
        ensures
            r == permitted(self, next),
    {
        self == next || matches!((self, next),
            (AgentStatus::Idle, AgentStatus::Working | AgentStatus::Killed)
            | (AgentStatus::Working, AgentStatus::Waiting | AgentStatus::Done | AgentStatus::Killed)
            | (AgentStatus::Waiting, AgentStatus::Working | AgentStatus::Killed)
            | (AgentStatus::Done, AgentStatus::Working | AgentStatus::Killed))
    }

    /// The place of the status in lists.
    pub fn priority(self) -> (r: u8)
        ensures
            r == status_priority(self),
    {
        match self {
            AgentStatus::Waiting => 0,
            AgentStatus::Idle => 1,
            AgentStatus::Working => 2,
            AgentStatus::Done => 3,
            AgentStatus::Killed => 4,
        }
    }
}

/// A tracked agent runtime.
pub struct AgentRun {
    pub id: i64,
    pub kind: String,
    pub started_at: Timestamp,
    pub status: AgentStatus,
    pub acknowledged: bool,
    pub orchestrator: Orchestrator,
    pub storage: Storage,
}

/// The text of an acknowledgment where there is nothing to acknowledge.
pub open spec fn acknowledged_text(id: i64) -> Seq<char> {
    "agent "@ + signed(id as int) + " has acknowledged non-done state"@
}

/// The text of a status that cannot follow the known one.
pub open spec fn unreachable_text(id: i64, from: AgentStatus, to: AgentStatus) -> Seq<char> {
    "agent "@ + signed(id as int) + " moved from "@ + status_text(from) + " to unreachable "@
        + status_text(to) + " state"@
}

impl AgentRun {
    /// Whether the status can still change.
    pub open spec fn pending(self) -> bool {
        self.status != AgentStatus::Killed
    }

    /// Whether a stored status and acknowledgment can be those of the agent.
    pub open spec fn plausible(self, status: AgentStatus, acknowledged: bool) -> bool {
        (acknowledged ==> status == AgentStatus::Done) && reachable(self.status, status)
    }

    /// What an observation makes of an agent.
    pub open spec fn observed(self, status: AgentStatus, acknowledged: bool) -> AgentRun {
        if self.plausible(status, acknowledged) {
            AgentRun { status, acknowledged, ..self }
        } else {
            self
        }
    }

    /// What storage is asked to write for a new agent.
    pub fn create(storage: Storage, kind: &str, env: &Environment) -> (r: Result<Job, Error>)
        ensures
            match r {
                Err(error) => if blank(kind@) {
                    error.is_invalid("agent kind is empty"@)
                } else {
                    env.cwd matches Err(reason) && error == Error::Environment(reason)
                },
                Ok(job) => {
                    &&& !blank(kind@)
                    &&& env.cwd matches Ok(found) && job matches Job::CreateAgent {
                        kind: written,
                        cwd,
                        pane,
                    } && written@ == kind@ && cwd == found && some_text(pane) == current_pane(
                        env.vars@,
                    )
                },
            },
    {
        if is_blank(kind) {
            return Err(Error::Invalid("agent kind is empty".to_owned()));
        }
        match detect(env) {
            Err(reason) => Err(Error::Environment(reason)),
            Ok((cwd, pane)) => storage.create_agent(kind, cwd, pane),
        }
    }

    /// Puts an agent together from values that were checked before.
    pub fn hydrate(
        storage: Storage,
        id: i64,
        kind: String,
        started_at: Timestamp,
        status: AgentStatus,
        acknowledged: bool,
        orchestrator: Orchestrator,
    ) -> (r: Self)
        ensures
            r == (AgentRun { id, kind, started_at, status, acknowledged, orchestrator, storage }),
    {
        AgentRun { id, kind, started_at, status, acknowledged, orchestrator, storage }
    }

    pub fn id(&self) -> (r: i64)
        ensures
            r == self.id,
    {
        self.id
    }

    pub fn started_at(&self) -> (r: Timestamp)
        ensures
            r == self.started_at,
    {
        self.started_at
    }

    pub fn orchestrator(&self) -> (r: &Orchestrator)
        ensures
            *r == self.orchestrator,
    {
        &self.orchestrator
    }

    /// The current status, given what storage answers where it has to be asked.
    pub fn status(&mut self, stored: Result<(AgentStatus, bool), Error>) -> (r: Result<
        AgentStatus,
        Error,
    >)
        ensures
            agent_synced(*old(self), stored, *final(self), unit_of(r)),
            r matches Ok(status) ==> status == final(self).status,
    {
        match self.sync(stored) {
            Err(error) => Err(error),
            Ok(()) => Ok(self.status),
        }
    }

    /// Takes over what storage answered to a new status.
    pub fn set_status(&mut self, written: Result<(AgentStatus, bool), Error>) -> (r: Result<
        (),
        Error,
    >)
        ensures
            agent_taken(*old(self), written, *final(self), r),
    {
        match written {
            Err(error) => Err(error),
            Ok((status, acknowledged)) => self.observe(status, acknowledged),
        }
    }

    /// Takes over what storage answered to an acknowledgment.
    pub fn acknowledge(&mut self, written: Result<(AgentStatus, bool), Error>) -> (r: Result<
        (),
        Error,
    >)
        ensures
            agent_taken(*old(self), written, *final(self), r),
    {
        match written {
            Err(error) => Err(error),
            Ok((status, acknowledged)) => self.observe(status, acknowledged),
        }
    }

    /// Takes over the stored status, unless it cannot change any more.
    pub fn sync(&mut self, stored: Result<(AgentStatus, bool), Error>) -> (r: Result<(), Error>)
        ensures
            agent_synced(*old(self), stored, *final(self), r),
    {
        if self.needs_sync() {
            match stored {
                Err(error) => {
                    return Err(error);
                },
                Ok((status, acknowledged)) => {
                    return self.observe(status, acknowledged);
                },
            }
        }
        Ok(())
    }

    /// Takes over an observed status and acknowledgment. Changes in between may
    /// have been missed.
    pub fn observe(&mut self, status: AgentStatus, acknowledged: bool) -> (r: Result<(), Error>)
        ensures
            *final(self) == old(self).observed(status, acknowledged),
            match r {
                Ok(()) => old(self).plausible(status, acknowledged),
                Err(error) => implausible(*old(self), status, acknowledged, error),
            },
    {
        if acknowledged && status != AgentStatus::Done {
            return Err(
                Error::CorruptData(about("agent ", self.id, " has acknowledged non-done state")),
            );
        }
        let reached: bool = match self.status {
            AgentStatus::Idle => true,
            AgentStatus::Working | AgentStatus::Waiting | AgentStatus::Done => status
                != AgentStatus::Idle,
            AgentStatus::Killed => status == AgentStatus::Killed,
        };
        if !reached {
            let mut text: String = about("agent ", self.id, " moved from ");
            text.append(self.status.as_str());
            text.append(" to unreachable ");
            text.append(status.as_str());
            text.append(" state");
            return Err(Error::CorruptData(text));
        }
        self.status = status;
        self.acknowledged = acknowledged;
        Ok(())
    }

    /// Killed agents do not change any more; acknowledged ones may start again.
    pub fn needs_sync(&self) -> (r: bool)
        ensures
            r == self.pending(),
    {
        self.status != AgentStatus::Killed
    }

    /// Whether the agent was read from the given storage.
    pub fn belongs_to(&self, storage: &Storage) -> (r: bool)
        ensures
            r == self.storage.same(*storage),
    {
        self.storage.same_storage(storage)
    }

    /// What is shown of the agent.
    pub fn snapshot(&self) -> (r: AgentSnapshot)
        ensures
            r == self.shown(),
    {
        AgentSnapshot {
            id: self.id,
            kind: self.kind.clone(),
            started_at: self.started_at,
            status: self.status,
            acknowledged: self.acknowledged,
            orchestrator: self.orchestrator.snapshot(),
        }
    }

    /// What is shown of the agent.
    pub open spec fn shown(self) -> AgentSnapshot {
        AgentSnapshot {
            id: self.id,
            kind: self.kind,
            started_at: self.started_at,
            status: self.status,
            acknowledged: self.acknowledged,
            orchestrator: self.orchestrator.shown(),
        }
    }
}

/// Which error an implausible observation leads to.
pub open spec fn implausible(
    run: AgentRun,
    status: AgentStatus,
    acknowledged: bool,
    error: Error,
) -> bool {
    if acknowledged && status != AgentStatus::Done {
        error.is_corrupt(acknowledged_text(run.id))
    } else {
        !reachable(run.status, status) && error.is_corrupt(
            unreachable_text(run.id, run.status, status),
        )
    }
}

/// What an answer of storage makes of an agent: the observation that it brings,
/// or nothing.
pub open spec fn agent_taken(
    before: AgentRun,
    answer: Result<(AgentStatus, bool), Error>,
    after: AgentRun,
    r: Result<(), Error>,
) -> bool {
    match answer {
        Err(error) => after == before && r == Err::<(), Error>(error),
        Ok((status, acknowledged)) => {
            &&& after == before.observed(status, acknowledged)
            &&& match r {
                Ok(()) => before.plausible(status, acknowledged),
                Err(error) => implausible(before, status, acknowledged, error),
            }
        },
    }
}

/// As `agent_taken`, for an agent that may be beyond change.
pub open spec fn agent_synced(
    before: AgentRun,
    answer: Result<(AgentStatus, bool), Error>,
    after: AgentRun,
    r: Result<(), Error>,
) -> bool {
    if before.pending() {
        agent_taken(before, answer, after, r)
    } else {
        after == before && r is Ok
    }
}

/// What is shown of a tracked agent runtime.
#[derive(Debug)]
pub struct AgentSnapshot {
    pub id: i64,
    pub kind: String,
    pub started_at: Timestamp,
    pub status: AgentStatus,
    pub acknowledged: bool,
    pub orchestrator: OrchestratorSnapshot,
}

impl AgentSnapshot {
    /// How long ago the agent was registered.
    pub fn elapsed(&self, now: Timestamp) -> (r: Span)
        ensures
            r.nanos == now.since(self.started_at),
    {
        now.saturating_since(self.started_at)
    }
}

/// A history of statuses in which each may follow the one before it.
pub open spec fn is_history(history: Seq<AgentStatus>) -> bool {
    &&& history.len() > 0
    &&& forall|i: int|
        0 <= i < history.len() - 1 ==> permitted(#[trigger] history[i], history[i + 1])
}

/// An agent can be observed in a status exactly where some history of permitted
/// changes leads there.
pub proof fn reachable_through_history(from: AgentStatus, to: AgentStatus)
    ensures
        reachable(from, to) <==> exists|history: Seq<AgentStatus>|
            is_history(history) && history.first() == from && history.last() == to,
{
    if reachable(from, to) {
        let through_working = if from == AgentStatus::Killed {
            seq![from, to]
        } else {
            seq![from, if from == AgentStatus::Working || to == AgentStatus::Idle || to
                == AgentStatus::Killed {
                from
            } else {
                AgentStatus::Working
            }, to]
        };
        assert(is_history(through_working));
        assert(through_working.first() == from && through_working.last() == to);
    }
    assert forall|history: Seq<AgentStatus>|
        is_history(history) && history.first() == from && history.last() == to implies reachable(
        from,
        to,
    ) by {
        lemma_history(history);
    }
}

proof fn lemma_history(history: Seq<AgentStatus>)
    requires
        is_history(history),
    ensures
        reachable(history.first(), history.last()),
    decreases history.len(),
{
    if history.len() > 1 {
        let shorter = history.drop_last();
        assert(is_history(shorter));
        lemma_history(shorter);
        assert(permitted(history[history.len() - 2], history[history.len() - 1]));
    }
}

/// No report leaves the killed status.
pub proof fn killed_is_terminal(next: AgentStatus)
    requires
        permitted(AgentStatus::Killed, next),
    ensures
        next == AgentStatus::Killed,
{
}

/// The stored numbers and the names tell the statuses apart.
pub proof fn statuses_are_told_apart(left: AgentStatus, right: AgentStatus)
    ensures
        status_code(left) == status_code(right) ==> left == right,
        status_text(left) == status_text(right) ==> left == right,
{
    reveal_strlit("idle");
    reveal_strlit("working");
    reveal_strlit("waiting");
    reveal_strlit("done");
    reveal_strlit("killed");
    assert(status_text(left)[0] == match left {
        AgentStatus::Idle => 'i',
        AgentStatus::Working => 'w',
        AgentStatus::Waiting => 'w',
        AgentStatus::Done => 'd',
        AgentStatus::Killed => 'k',
    });
    assert(status_text(right)[0] == match right {
        AgentStatus::Idle => 'i',
        AgentStatus::Working => 'w',
        AgentStatus::Waiting => 'w',
        AgentStatus::Done => 'd',
        AgentStatus::Killed => 'k',
    });
    assert("working"@[1] == 'o');
    assert("waiting"@[1] == 'a');
}

} // verus!
