//! A tracked command, from its start to its acknowledgment.

use vstd::prelude::*;
use vstd::string::*;

use crate::error::{about, Error};
use crate::orchestrator::{current_pane, detect, some_text, Environment, Orchestrator, OrchestratorSnapshot};
use crate::storage::{Job, Storage};
use crate::text::{blank, is_blank, natural, numeral, signed};
use crate::time::{Span, Timestamp};

verus! {

/// Where a tracked command stands.
#[derive(Clone, Copy, Debug, PartialEq, Eq, Structural)]
pub enum ProcessState {
    Running,
    Finished { finished_at: Timestamp, exit_status: u8 },
    Acknowledged { finished_at: Timestamp, exit_status: u8 },
}

impl ProcessState {
    /// How far along its life a state is.
    pub open spec fn rank(self) -> int {
        match self {
            ProcessState::Running => 0,
            ProcessState::Finished { .. } => 1,
            ProcessState::Acknowledged { .. } => 2,
        }
    }

    /// When and how the command ended, where it did.
    pub open spec fn completed(self) -> Option<(Timestamp, u8)> {
        match self {
            ProcessState::Running => None,
            ProcessState::Finished { finished_at, exit_status } => Some((finished_at, exit_status)),
            ProcessState::Acknowledged { finished_at, exit_status } => Some(
                (finished_at, exit_status),
            ),
        }
    }

    /// Whether two states tell different stories about the end of a command.
    pub open spec fn conflicts(self, other: ProcessState) -> bool {
        self.completed() is Some && other.completed() is Some && self.completed()
            != other.completed()
    }

    /// The later of two states.
    pub open spec fn later(self, other: ProcessState) -> ProcessState {
        if other.rank() >= self.rank() {
            other
        } else {
            self
        }
    }
}

/// When and how a command ended, where it did.
pub fn completion(state: ProcessState) -> (r: Option<(Timestamp, u8)>)
    ensures
        r == state.completed(),
{
    match state {
        ProcessState::Running => None,
        ProcessState::Finished { finished_at, exit_status } => Some((finished_at, exit_status)),
        ProcessState::Acknowledged { finished_at, exit_status } => Some((finished_at, exit_status)),
    }
}

/// A tracked command.
pub struct ProcessRun {
    pub id: i64,
    pub label: String,
    pub started_at: Timestamp,
    pub state: ProcessState,
    pub orchestrator: Orchestrator,
    pub storage: Storage,
}

/// The text of a contradiction between two observations.
pub open spec fn inconsistent_text(id: i64) -> Seq<char> {
    "process "@ + signed(id as int) + " has inconsistent completion facts"@
}

impl ProcessRun {
    /// Whether the command has not been acknowledged yet.
    pub open spec fn pending(self) -> bool {
        !(self.state is Acknowledged)
    }

    /// What an observation of the state makes of a command.
    pub open spec fn observed(self, state: ProcessState) -> ProcessRun {
        if self.state.conflicts(state) {
            self
        } else {
            ProcessRun { state: self.state.later(state), ..self }
        }
    }

    /// What storage is asked to write for a new command.
    pub fn create(storage: Storage, label: &str, env: &Environment) -> (r: Result<Job, Error>)
        ensures
            match r {
                Err(error) => if blank(label@) {
                    error.is_invalid("command label is empty"@)
                } else {
                    env.cwd matches Err(reason) && error == Error::Environment(reason)
                },
                Ok(job) => {
                    &&& !blank(label@)
                    &&& env.cwd matches Ok(found) && job matches Job::StartProcess {
                        label: written,
                        cwd,
                        pane,
                    } && written@ == label@ && cwd == found && some_text(pane) == current_pane(
                        env.vars@,
                    )
                },
            },
    {
        if is_blank(label) {
            return Err(Error::Invalid("command label is empty".to_owned()));
        }
        match detect(env) {
            Err(reason) => Err(Error::Environment(reason)),
            Ok((cwd, pane)) => Ok(storage.create_process(label, cwd, pane)),
        }
    }

    /// Puts a command together from values that were checked before.
    pub fn hydrate(
        storage: Storage,
        id: i64,
        label: String,
        started_at: Timestamp,
        state: ProcessState,
        orchestrator: Orchestrator,
    ) -> (r: Self)
        ensures
            r == (ProcessRun { id, label, started_at, state, orchestrator, storage }),
    {
        ProcessRun { id, label, started_at, state, orchestrator, storage }
    }

    pub fn id(&self) -> (r: i64)
        ensures
            r == self.id,
    {
        self.id
    }

    pub fn label(&self) -> (r: &str)
        ensures
            r@ == self.label@,
    {
        self.label.as_str()
    }

    pub fn started_at(&self) -> (r: Timestamp)
        ensures
            r == self.started_at,
    {
        self.started_at
    }

    pub fn orchestrator(&self) -> (r: &Orchestrator)
        ensures
            *r == self.orchestrator,
    {
        &self.orchestrator
    }

    /// The current state, given what storage answers where it has to be asked.
    pub fn state(&mut self, stored: Result<ProcessState, Error>) -> (r: Result<
        ProcessState,
        Error,
    >)
        ensures
            synced(*old(self), stored, *final(self), unit_of(r)),
            r matches Ok(state) ==> state == final(self).state,
    {
        match self.sync(stored) {
            Err(error) => Err(error),
            Ok(()) => Ok(self.state),
        }
    }

    /// The time of the end, given what storage answers where it has to be asked.
    pub fn finished_at(&mut self, stored: Result<ProcessState, Error>) -> (r: Result<
        Option<Timestamp>,
        Error,
    >)
        ensures
            asked_if_running(*old(self), stored, *final(self), unit_of(r)),
            r matches Ok(time) ==> time == match final(self).state.completed() {
                Some((time, _)) => Some(time),
                None => None,
            },
    {
        if matches!(self.state, ProcessState::Running) {
            match self.sync(stored) {
                Err(error) => {
                    return Err(error);
                },
                Ok(()) => {},
            }
        }
        match completion(self.state) {
            Some((time, _)) => Ok(Some(time)),
            None => Ok(None),
        }
    }

    /// The exit status, given what storage answers where it has to be asked.
    pub fn exit_status(&mut self, stored: Result<ProcessState, Error>) -> (r: Result<
        Option<u8>,
        Error,
    >)
        ensures
            asked_if_running(*old(self), stored, *final(self), unit_of(r)),
            r matches Ok(status) ==> status == match final(self).state.completed() {
                Some((_, status)) => Some(status),
                None => None,
            },
    {
        if matches!(self.state, ProcessState::Running) {
            match self.sync(stored) {
                Err(error) => {
                    return Err(error);
                },
                Ok(()) => {},
            }
        }
        match completion(self.state) {
            Some((_, status)) => Ok(Some(status)),
            None => Ok(None),
        }
    }

    /// Takes over what storage answered to the end of the command.
    pub fn finish(&mut self, written: Result<ProcessState, Error>) -> (r: Result<(), Error>)
        ensures
            taken(*old(self), written, *final(self), r),
    {
        match written {
            Err(error) => Err(error),
            Ok(state) => self.observe(state),
        }
    }

    /// Takes over what storage answered to an acknowledgment.
    pub fn acknowledge(&mut self, written: Result<ProcessState, Error>) -> (r: Result<(), Error>)
        ensures
            taken(*old(self), written, *final(self), r),
    {
        match written {
            Err(error) => Err(error),
            Ok(state) => self.observe(state),
        }
    }

    /// Takes over the stored state, unless nothing about the command can change
    /// any more.
    pub fn sync(&mut self, stored: Result<ProcessState, Error>) -> (r: Result<(), Error>)
        ensures
            synced(*old(self), stored, *final(self), r),
    {
        if self.needs_sync() {
            match stored {
                Err(error) => {
                    return Err(error);
                },
                Ok(state) => {
                    return self.observe(state);
                },
            }
        }
        Ok(())
    }

    /// What is shown of the command.
    pub fn snapshot(&self) -> (r: ProcessSnapshot)
        ensures
            r == self.shown(),
    {
        ProcessSnapshot {
            id: self.id,
            label: self.label.clone(),
            started_at: self.started_at,
            state: self.state,
            orchestrator: self.orchestrator.snapshot(),
        }
    }

    /// What is shown of the command.
    pub open spec fn shown(self) -> ProcessSnapshot {
        ProcessSnapshot {
            id: self.id,
            label: self.label,
            started_at: self.started_at,
            state: self.state,
            orchestrator: self.orchestrator.shown(),
        }
    }

    /// Whether the command was read from the given storage.
    pub fn belongs_to(&self, storage: &Storage) -> (r: bool)
        ensures
            r == self.storage.same(*storage),
    {
        self.storage.same_storage(storage)
    }

    /// Finished commands still change when they are acknowledged elsewhere.
    pub fn needs_sync(&self) -> (r: bool)
        ensures
            r == self.pending(),
    {
        !matches!(self.state, ProcessState::Acknowledged { .. })
    }

    /// Takes over an observed state where it is later than the known one.
    pub fn observe(&mut self, observed: ProcessState) -> (r: Result<(), Error>)
        ensures
            *final(self) == old(self).observed(observed),
            match r {
                Ok(()) => !old(self).state.conflicts(observed),
                Err(error) => old(self).state.conflicts(observed) && error.is_corrupt(
                    inconsistent_text(old(self).id),
                ),
            },
    {
        match (completion(self.state), completion(observed)) {
            (Some((old_time, old_status)), Some((new_time, new_status))) => {
                if old_time != new_time || old_status != new_status {
                    return Err(
                        Error::CorruptData(
                            about("process ", self.id, " has inconsistent completion facts"),
                        ),
                    );
                }
            },
            _ => {},
        }
        match (self.state, observed) {
            (ProcessState::Running, _) => {
                self.state = observed;
            },
            (ProcessState::Finished { .. }, ProcessState::Running) => {},
            (ProcessState::Finished { .. }, _) => {
                self.state = observed;
            },
            (ProcessState::Acknowledged { .. }, _) => {},
        }
        Ok(())
    }
}

/// The outcome of a step without its value.
pub open spec fn unit_of<T>(r: Result<T, Error>) -> Result<(), Error> {
    match r {
        Ok(_) => Ok(()),
        Err(error) => Err(error),
    }
}

/// What an answer of storage makes of a command: the observation that it
/// brings, or nothing.
pub open spec fn taken(
    before: ProcessRun,
    answer: Result<ProcessState, Error>,
    after: ProcessRun,
    r: Result<(), Error>,
) -> bool {
    match answer {
        Err(error) => after == before && r == Err::<(), Error>(error),
        Ok(state) => {
            &&& after == before.observed(state)
            &&& match r {
                Ok(()) => !before.state.conflicts(state),
                Err(error) => before.state.conflicts(state) && error.is_corrupt(
                    inconsistent_text(before.id),
                ),
            }
        },
    }
}

/// As `taken`, for a command that may be beyond change.
pub open spec fn synced(
    before: ProcessRun,
    answer: Result<ProcessState, Error>,
    after: ProcessRun,
    r: Result<(), Error>,
) -> bool {
    if before.pending() {
        taken(before, answer, after, r)
    } else {
        after == before && r is Ok
    }
}

/// As `taken`, for a question that only a running command raises.
pub open spec fn asked_if_running(
    before: ProcessRun,
    answer: Result<ProcessState, Error>,
    after: ProcessRun,
    r: Result<(), Error>,
) -> bool {
    if before.state is Running {
        taken(before, answer, after, r)
    } else {
        after == before && r is Ok
    }
}

/// What is shown of a tracked command.
#[derive(Debug)]
pub struct ProcessSnapshot {
    pub id: i64,
    pub label: String,
    pub started_at: Timestamp,
    pub state: ProcessState,
    pub orchestrator: OrchestratorSnapshot,
}

/// The wording of an outcome.
pub open spec fn outcome_text(state: ProcessState) -> Seq<char> {
    match state.completed() {
        None => "running"@,
        Some((_, status)) => if status == 0 {
            "succeeded"@
        } else {
            "failed/"@ + numeral(status as nat)
        },
    }
}

impl ProcessSnapshot {
    /// The time at which the command ended, or else the given one.
    pub open spec fn end(self, now: Timestamp) -> Timestamp {
        match self.state.completed() {
            Some((time, _)) => time,
            None => now,
        }
    }

    /// How long the command ran, up to `now` where it still does.
    pub fn elapsed(&self, now: Timestamp) -> (r: Span)
        ensures
            r.nanos == self.end(now).since(self.started_at),
    {
        let end: Timestamp = match completion(self.state) {
            Some((time, _)) => time,
            None => now,
        };
        end.saturating_since(self.started_at)
    }

    /// The wording of the outcome.
    pub fn outcome(&self) -> (r: String)
        ensures
            r@ == outcome_text(self.state),
    {
        match completion(self.state) {
            None => "running".to_owned(),
            Some((_, status)) => {
                if status == 0 {
                    "succeeded".to_owned()
                } else {
                    "failed/".to_owned().concat(natural(status as u128).as_str())
                }
            },
        }
    }

    /// The exit status, where the command ended.
    pub fn exit_status(&self) -> (r: Option<u8>)
        ensures
            r == match self.state.completed() {
                Some((_, status)) => Some(status),
                None => None,
            },
    {
        match completion(self.state) {
            Some((_, status)) => Some(status),
            None => None,
        }
    }

    /// Whether the end was acknowledged.
    pub fn acknowledged(&self) -> (r: bool)
        ensures
            r == (self.state is Acknowledged),
    {
        matches!(self.state, ProcessState::Acknowledged { .. })
    }
}

/// An observation never moves a command back, and never changes when or how it
/// ended.
pub proof fn observations_are_monotonic(run: ProcessRun, state: ProcessState)
    ensures
        run.observed(state).state.rank() >= run.state.rank(),
        run.state.completed() is Some ==> run.observed(state).state.completed()
            == run.state.completed(),
        run.observed(state) == (ProcessRun { state: run.observed(state).state, ..run }),
{
}

/// The order in which two states are observed does not matter, as long as they
/// do not contradict one another or the known state.
pub proof fn observations_commute(run: ProcessRun, first: ProcessState, second: ProcessState)
    requires
        !run.state.conflicts(first),
        !run.state.conflicts(second),
        !first.conflicts(second),
    ensures
        run.observed(first).observed(second) == run.observed(second).observed(first),
        !run.observed(first).state.conflicts(second),
{
}

/// Observing a state again changes nothing.
pub proof fn observations_are_idempotent(run: ProcessRun, state: ProcessState)
    ensures
        run.observed(state).observed(state) == run.observed(state),
{
}

} // verus!
