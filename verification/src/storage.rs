//! The handle of an opened database: which requests it takes, and what is made
//! of the answers.

use vstd::prelude::*;

use crate::agent::{AgentRun, AgentStatus};
use crate::answers::{
    agent_states_answered, agent_states_fetched, agent_states_in, agents_fetched, agents_in,
    first_missing_agent, first_missing_process, first_of,
    lemma_agent_states_fault, lemma_agents_fault, lemma_process_states_fault,
    lemma_processes_fault, listed, process_states_answered, process_states_fetched,
    process_states_in, processes_fetched, processes_in,
};
use crate::error::{about, map_error, plain, Error, ErrorView};
use crate::observation::{
    agent_ids_pending, agents_synced, foreign_agent, foreign_process, lemma_foreign_agent,
    lemma_foreign_process, observe_agents, observe_processes, pending_agents, pending_processes,
    process_ids_pending, processes_synced,
};
use crate::orchestrator::{current_pane, some_text, Environment};
use crate::process::{ProcessRun, ProcessState};
use crate::query::{AgentQuery, AgentStatusRow, Fetch, ProcessQuery, ProcessStateRow};
use crate::rows::{
    data, decode_agent, decode_agent_state_at, decode_process, decode_state_at, AgentRow,
    ProcessRow,
};
use crate::text::{blank, is_blank, signed};

verus! {

/// What storage is asked to write, each in a transaction of its own.
pub enum Job {
    StartProcess { label: String, cwd: String, pane: Option<String> },
    FinishProcess { id: i64, exit_status: u8 },
    AcknowledgeProcess { id: i64 },
    DeleteProcess { id: i64 },
    CreateAgent { kind: String, cwd: String, pane: Option<String> },
    SetStatusAgent { id: i64, status: AgentStatus },
    AcknowledgeAgent { id: i64 },
    AcknowledgeAgentIfDone { id: i64 },
    DeleteAgent { id: i64 },
}

/// An opened database. Handles are equal exactly where they stand for the same
/// opening of a database.
#[derive(Clone, Copy, Debug, PartialEq, Eq, Structural)]
pub struct Storage {
    pub handle: u64,
    pub read_only: bool,
}

/// What is to be done before something is read.
#[derive(Clone, Copy, Debug, PartialEq, Eq, Structural)]
pub enum Access {
    /// The database is open.
    Ready,
    /// There is no database, and nothing to read.
    Absent,
    /// Open the database for reading, and check its schema.
    Check,
    /// Open the database for writing, and bring its schema up to date.
    Migrate,
}

impl Storage {
    /// Whether two handles stand for the same opening of a database.
    pub open spec fn same(self, other: Storage) -> bool {
        self.handle == other.handle
    }

    /// Opens a database for reading and writing, given what came of looking at
    /// its schema.
    pub fn open(handle: u64, schema: Result<(), Error>) -> (r: Result<Self, Error>)
        ensures
            r == match schema {
                Ok(_) => Ok::<Storage, Error>(Storage { handle, read_only: false }),
                Err(error) => Err(error),
            },
    {
        match schema {
            Ok(()) => Ok(Storage { handle, read_only: false }),
            Err(error) => Err(error),
        }
    }

    /// Opens a database for reading, given what came of looking at its schema.
    pub fn open_read_only(handle: u64, schema: Result<(), Error>) -> (r: Result<Self, Error>)
        ensures
            r == match schema {
                Ok(_) => Ok::<Storage, Error>(Storage { handle, read_only: true }),
                Err(error) => Err(error),
            },
    {
        match schema {
            Ok(()) => Ok(Storage { handle, read_only: true }),
            Err(error) => Err(error),
        }
    }

    /// Whether two handles stand for the same opening of a database.
    pub fn same_storage(&self, other: &Self) -> (r: bool)
        ensures
            r == self.same(*other),
    {
        self.handle == other.handle
    }

    /// What is to be done before something is read; no database is created for
    /// that.
    pub fn readable(&self, connected: bool, present: bool) -> (r: Access)
        ensures
            r == if connected {
                Access::Ready
            } else if !present {
                Access::Absent
            } else if self.read_only {
                Access::Check
            } else {
                Access::Migrate
            },
    {
        if connected {
            Access::Ready
        } else if !present {
            Access::Absent
        } else if self.read_only {
            Access::Check
        } else {
            Access::Migrate
        }
    }

    /// Whether anything may be written.
    pub fn writable(&self) -> (r: Result<(), Error>)
        ensures
            plain(r) == if self.read_only {
                Err::<(), ErrorView>(ErrorView::ReadOnly)
            } else {
                Ok(())
            },
    {
        if self.read_only {
            Err(Error::ReadOnly)
        } else {
            Ok(())
        }
    }

    /// Asks for a new tracked command, started where the environment says.
    pub fn start_process(&self, label: &str, env: &Environment) -> (r: Result<Job, Error>)
        ensures
            match r {
                Err(error) => if blank(label@) {
                    error.is_invalid("command label is empty"@)
                } else {
                    env.cwd matches Err(reason) && error == Error::Environment(reason)
                },
                Ok(job) => {
                    &&& !blank(label@)
                    &&& env.cwd matches Ok(found) && job matches Job::StartProcess {
                        label: written,
                        cwd,
                        pane,
                    } && written@ == label@ && cwd == found && some_text(pane) == current_pane(
                        env.vars@,
                    )
                },
            },
    {
        ProcessRun::create(*self, label, env)
    }

    /// Asks for a new tracked command.
    pub fn create_process(&self, label: &str, cwd: String, pane: Option<String>) -> (r: Job)
        ensures
            r matches Job::StartProcess { label: written, cwd: directory, pane: place }
                && written@ == label@ && directory == cwd && place == pane,
    {
        Job::StartProcess { label: label.to_owned(), cwd, pane }
    }

    /// Asks for a command by its number.
    pub fn get_process(&self, id: i64) -> (r: Result<ProcessQuery, Error>)
        ensures
            match r {
                Ok(query) => id > 0 && query == (ProcessQuery::One { id }),
                Err(error) => id <= 0 && error.is_invalid(
                    "process id "@ + signed(id as int) + " must be positive"@,
                ),
            },
    {
        if id <= 0 {
            return Err(Error::Invalid(about("process id ", id, " must be positive")));
        }
        Ok(ProcessQuery::One { id })
    }

    /// Takes the command with a number out of the answer.
    pub fn found_process(&self, id: i64, found: Result<Vec<ProcessRun>, Error>) -> (r: Result<
        ProcessRun,
        Error,
    >)
        ensures
            plain(r) == first_of(listed(found), ErrorView::NotFound(id)),
    {
        match found {
            Err(error) => Err(error),
            Ok(mut list) => {
                if list.len() == 0 {
                    Err(Error::NotFound(id))
                } else {
                    Ok(list.swap_remove(0))
                }
            },
        }
    }

    /// Asks for the commands that still run, newest first.
    pub fn running_process(&self) -> (r: ProcessQuery)
        ensures
            r == ProcessQuery::Running,
    {
        ProcessQuery::Running
    }

    /// Asks for the commands that are not acknowledged, newest first.
    pub fn unacked_process(&self) -> (r: ProcessQuery)
        ensures
            r == ProcessQuery::Unacked,
    {
        ProcessQuery::Unacked
    }

    /// Asks for all commands, newest first.
    pub fn all_process(&self) -> (r: ProcessQuery)
        ensures
            r == ProcessQuery::All,
    {
        ProcessQuery::All
    }

    /// The largest number of a command; without a database there is none.
    pub fn latest_process(&self, found: Result<Option<Option<i64>>, Error>) -> (r: Result<
        Option<i64>,
        Error,
    >)
        ensures
            r == latest(found),
    {
        match found {
            Err(error) => Err(error),
            Ok(None) => Ok(None),
            Ok(Some(id)) => Ok(id),
        }
    }

    /// Asks for the commands with numbers behind `after`, up to `through`, in
    /// order, and at most `limit` of them.
    pub fn range_process(&self, after: i64, through: i64, limit: usize) -> (r: Result<
        ProcessQuery,
        Error,
    >)
        ensures
            match r {
                Ok(query) => range_fault(after, through, limit, "invalid process range"@) is None
                    && query == (ProcessQuery::Range { after, through, limit: limit as i64 }),
                Err(error) => range_fault(after, through, limit, "invalid process range"@)
                    == Some(error@),
            },
    {
        if after < 0 || through < 0 || through < after || limit == 0 {
            return Err(Error::Invalid("invalid process range".to_owned()));
        }
        if limit as u64 > 0x7fff_ffff_ffff_ffff {
            return Err(Error::Invalid("range limit is too large".to_owned()));
        }
        Ok(ProcessQuery::Range { after, through, limit: limit as i64 })
    }

    /// Reads an answer with commands.
    pub fn query_processes(&self, fetch: Fetch<ProcessRow>) -> (r: Result<Vec<ProcessRun>, Error>)
        ensures
            listed(r) == processes_fetched(fetch, *self),
    {
        match fetch {
            Fetch::Absent => Ok(Vec::new()),
            Fetch::Refused(error) => Err(error),
            Fetch::Rows { rows, failure } => {
                let mut found: Vec<ProcessRun> = Vec::new();
                let ghost all = rows@;
                for row in it: rows.into_iter()
                    invariant
                        it.seq() == all,
                        processes_in(all, *self) matches Err(error) ==> processes_fetched(
                            fetch, *self,
                        ) == Err::<Seq<ProcessRun>, ErrorView>(error),
                        processes_in(all.take(it.index() as int), *self) == Ok::<Seq<ProcessRun>, ErrorView>(
                            found@,
                        ),
                {
                    proof {
                        let n = it.index() as int;
                        assert(all.take(n + 1).drop_last() =~= all.take(n));
                        if processes_in(all.take(n + 1), *self) is Err {
                            lemma_processes_fault(all, *self, n + 1);
                        }
                    }
                    match decode_process(row, *self) {
                        Ok(value) => found.push(value),
                        Err(error) => return Err(error),
                    }
                }
                assert(all.take(all.len() as int) =~= all);
                match failure {
                    Some(failure) => Err(map_error(failure)),
                    None => Ok(found),
                }
            },
        }
    }

    /// Reads an answer with states of commands that were asked for by number.
    pub fn states_process(&self, ids: &Vec<i64>, fetch: Fetch<ProcessStateRow>) -> (r: Result<
        Vec<(i64, ProcessState)>,
        Error,
    >)
        ensures
            listed(r) == process_states_answered(ids@, fetch),
    {
        if ids.len() == 0 {
            return Ok(Vec::new());
        }
        if matches!(fetch, Fetch::Absent) {
            return Err(Error::NotFound(ids[0]));
        }
        match self.decode_process_states(fetch) {
            Err(error) => Err(error),
            Ok(found) => match first_missing_process(ids, &found) {
                Some(id) => Err(Error::NotFound(id)),
                None => Ok(found),
            },
        }
    }

    fn decode_process_states(&self, fetch: Fetch<ProcessStateRow>) -> (r: Result<
        Vec<(i64, ProcessState)>,
        Error,
    >)
        ensures
            listed(r) == process_states_fetched(fetch),
    {
        match fetch {
            Fetch::Absent => Ok(Vec::new()),
            Fetch::Refused(error) => Err(error),
            Fetch::Rows { rows, failure } => {
                let mut found: Vec<(i64, ProcessState)> = Vec::new();
                let ghost all = rows@;
                for row in it: rows.into_iter()
                    invariant
                        it.seq() == all,
                        process_states_in(all) matches Err(error) ==> process_states_fetched(
                            fetch,
                        ) == Err::<Seq<(i64, ProcessState)>, ErrorView>(error),
                        process_states_in(all.take(it.index() as int)) == Ok::<Seq<(i64, ProcessState)>, ErrorView>(
                            found@,
                        ),
                {
                    proof {
                        let n = it.index() as int;
                        assert(all.take(n + 1).drop_last() =~= all.take(n));
                        if process_states_in(all.take(n + 1)) is Err {
                            lemma_process_states_fault(all, n + 1);
                        }
                    }
                    let id: i64 = match data(row.id, "process id") {
                        Ok(value) => value,
                        Err(error) => return Err(error),
                    };
                    match decode_state_at(row.state) {
                        Ok(value) => found.push((id, value)),
                        Err(error) => return Err(error),
                    }
                }
                assert(all.take(all.len() as int) =~= all);
                match failure {
                    Some(failure) => Err(map_error(failure)),
                    None => Ok(found),
                }
            },
        }
    }

    /// The state of one command.
    pub fn state_process(&self, id: i64, fetch: Fetch<ProcessStateRow>) -> (r: Result<
        ProcessState,
        Error,
    >)
        ensures
            plain(r) == match first_of(
                process_states_answered(seq![id], fetch),
                ErrorView::NotFound(id),
            ) {
                Ok((_, state)) => Ok::<ProcessState, ErrorView>(state),
                Err(error) => Err(error),
            },
    {
        let ids: Vec<i64> = vec![id];
        assert(ids@ =~= seq![id]);
        match self.states_process(&ids, fetch) {
            Err(error) => Err(error),
            Ok(states) => {
                if states.len() == 0 {
                    Err(Error::NotFound(id))
                } else {
                    Ok(states[0].1)
                }
            },
        }
    }

    /// The numbers of the commands whose states may have changed. All commands
    /// have to be from this storage.
    pub fn pending_process(&self, processes: &Vec<ProcessRun>) -> (r: Result<Vec<i64>, Error>)
        ensures
            listed(r) == pending_processes(*self, processes@),
    {
        let mut i: usize = 0;
        while i < processes.len()
            invariant
                i <= processes.len(),
                foreign_process(*self, processes@.take(i as int)) is None,
            decreases processes.len() - i,
        {
            assert(processes@.take(i + 1).drop_last() =~= processes@.take(i as int));
            if !processes[i].belongs_to(self) {
                proof {
                    lemma_foreign_process(*self, processes@, i + 1);
                }
                return Err(Error::WrongStorage(processes[i].id()));
            }
            i = i + 1;
        }
        assert(processes@.take(processes@.len() as int) =~= processes@);
        let mut ids: Vec<i64> = Vec::new();
        let mut j: usize = 0;
        while j < processes.len()
            invariant
                j <= processes.len(),
                ids@ == process_ids_pending(processes@.take(j as int)),
            decreases processes.len() - j,
        {
            assert(processes@.take(j + 1).drop_last() =~= processes@.take(j as int));
            if processes[j].needs_sync() {
                ids.push(processes[j].id());
            }
            j = j + 1;
        }
        Ok(ids)
    }

    /// Takes over the stored states of commands that may have changed.
    pub fn sync_process(
        &self,
        processes: &mut Vec<ProcessRun>,
        fetch: Fetch<ProcessStateRow>,
    ) -> (r: Result<(), Error>)
        ensures
            (final(processes)@, plain(r)) == processes_synced(*self, old(processes)@, fetch),
    {
        let ids: Vec<i64> = match self.pending_process(processes) {
            Err(error) => return Err(error),
            Ok(ids) => ids,
        };
        if ids.len() == 0 {
            return Ok(());
        }
        let states: Vec<(i64, ProcessState)> = match self.states_process(&ids, fetch) {
            Err(error) => return Err(error),
            Ok(states) => states,
        };
        observe_processes(processes, &states)
    }

    /// Asks for the end of a tracked command to be recorded.
    pub fn finish_process(&self, id: i64, exit_status: u8) -> (r: Job)
        ensures
            r == (Job::FinishProcess { id, exit_status }),
    {
        Job::FinishProcess { id, exit_status }
    }

    /// Asks for the end of a tracked command to be acknowledged.
    pub fn acknowledge_process(&self, id: i64) -> (r: Job)
        ensures
            r == (Job::AcknowledgeProcess { id }),
    {
        Job::AcknowledgeProcess { id }
    }

    /// Asks for a tracked command to be removed.
    pub fn delete_process(&self, id: i64) -> (r: Job)
        ensures
            r == (Job::DeleteProcess { id }),
    {
        Job::DeleteProcess { id }
    }

    /// Asks for a new tracked agent, started where the environment says.
    pub fn register_agent(&self, kind: &str, env: &Environment) -> (r: Result<Job, Error>)
        ensures
            match r {
                Err(error) => if blank(kind@) {
                    error.is_invalid("agent kind is empty"@)
                } else {
                    env.cwd matches Err(reason) && error == Error::Environment(reason)
                },
                Ok(job) => {
                    &&& !blank(kind@)
                    &&& env.cwd matches Ok(found) && job matches Job::CreateAgent {
                        kind: written,
                        cwd,
                        pane,
                    } && written@ == kind@ && cwd == found && some_text(pane) == current_pane(
                        env.vars@,
                    )
                },
            },
    {
        AgentRun::create(*self, kind, env)
    }

    /// Asks for a new tracked agent; its kind has to be given.
    pub fn create_agent(&self, kind: &str, cwd: String, pane: Option<String>) -> (r: Result<
        Job,
        Error,
    >)
        ensures
            match r {
                Ok(job) => !blank(kind@) && (job matches Job::CreateAgent {
                    kind: written,
                    cwd: directory,
                    pane: place,
                } && written@ == kind@ && directory == cwd && place == pane),
                Err(error) => blank(kind@) && error.is_invalid("agent kind is empty"@),
            },
    {
        if is_blank(kind) {
            return Err(Error::Invalid("agent kind is empty".to_owned()));
        }
        Ok(Job::CreateAgent { kind: kind.to_owned(), cwd, pane })
    }

    /// Asks for an agent by its number.
    pub fn get_agent(&self, id: i64) -> (r: Result<AgentQuery, Error>)
        ensures
            match r {
                Ok(query) => id > 0 && query == (AgentQuery::One { id }),
                Err(error) => id <= 0 && error.is_invalid(
                    "agent id "@ + signed(id as int) + " must be positive"@,
                ),
            },
    {
        if id <= 0 {
            return Err(Error::Invalid(about("agent id ", id, " must be positive")));
        }
        Ok(AgentQuery::One { id })
    }

    /// Takes the agent with a number out of the answer.
    pub fn found_agent(&self, id: i64, found: Result<Vec<AgentRun>, Error>) -> (r: Result<
        AgentRun,
        Error,
    >)
        ensures
            plain(r) == first_of(listed(found), ErrorView::AgentNotFound(id)),
    {
        match found {
            Err(error) => Err(error),
            Ok(mut list) => {
                if list.len() == 0 {
                    Err(Error::AgentNotFound(id))
                } else {
                    Ok(list.swap_remove(0))
                }
            },
        }
    }

    /// Asks for the agents that call for attention, newest first.
    pub fn active_agent(&self) -> (r: AgentQuery)
        ensures
            r == AgentQuery::Active,
    {
        AgentQuery::Active
    }

    /// Asks for the agents that were not killed, newest first.
    pub fn unkilled_agent(&self) -> (r: AgentQuery)
        ensures
            r == AgentQuery::Unkilled,
    {
        AgentQuery::Unkilled
    }

    /// Asks for all agents, newest first.
    pub fn all_agent(&self) -> (r: AgentQuery)
        ensures
            r == AgentQuery::All,
    {
        AgentQuery::All
    }

    /// The largest number of an agent; without a database there is none.
    pub fn latest_agent(&self, found: Result<Option<Option<i64>>, Error>) -> (r: Result<
        Option<i64>,
        Error,
    >)
        ensures
            r == latest(found),
    {
        match found {
            Err(error) => Err(error),
            Ok(None) => Ok(None),
            Ok(Some(id)) => Ok(id),
        }
    }

    /// Asks for the agents with numbers behind `after`, up to `through`, in
    /// order, and at most `limit` of them.
    pub fn range_agent(&self, after: i64, through: i64, limit: usize) -> (r: Result<
        AgentQuery,
        Error,
    >)
        ensures
            match r {
                Ok(query) => range_fault(after, through, limit, "invalid agent range"@) is None
                    && query == (AgentQuery::Range { after, through, limit: limit as i64 }),
                Err(error) => range_fault(after, through, limit, "invalid agent range"@) == Some(
                    error@,
                ),
            },
    {
        if after < 0 || through < 0 || through < after || limit == 0 {
            return Err(Error::Invalid("invalid agent range".to_owned()));
        }
        if limit as u64 > 0x7fff_ffff_ffff_ffff {
            return Err(Error::Invalid("range limit is too large".to_owned()));
        }
        Ok(AgentQuery::Range { after, through, limit: limit as i64 })
    }

    /// Reads an answer with agents.
    pub fn query_agents(&self, fetch: Fetch<AgentRow>) -> (r: Result<Vec<AgentRun>, Error>)
        ensures
            listed(r) == agents_fetched(fetch, *self),
    {
        match fetch {
            Fetch::Absent => Ok(Vec::new()),
            Fetch::Refused(error) => Err(error),
            Fetch::Rows { rows, failure } => {
                let mut found: Vec<AgentRun> = Vec::new();
                let ghost all = rows@;
                for row in it: rows.into_iter()
                    invariant
                        it.seq() == all,
                        agents_in(all, *self) matches Err(error) ==> agents_fetched(
                            fetch, *self,
                        ) == Err::<Seq<AgentRun>, ErrorView>(error),
                        agents_in(all.take(it.index() as int), *self) == Ok::<Seq<AgentRun>, ErrorView>(
                            found@,
                        ),
                {
                    proof {
                        let n = it.index() as int;
                        assert(all.take(n + 1).drop_last() =~= all.take(n));
                        if agents_in(all.take(n + 1), *self) is Err {
                            lemma_agents_fault(all, *self, n + 1);
                        }
                    }
                    match decode_agent(row, *self) {
                        Ok(value) => found.push(value),
                        Err(error) => return Err(error),
                    }
                }
                assert(all.take(all.len() as int) =~= all);
                match failure {
                    Some(failure) => Err(map_error(failure)),
                    None => Ok(found),
                }
            },
        }
    }

    /// Reads an answer with statuses of agents that were asked for by number.
    pub fn states_agent(&self, ids: &Vec<i64>, fetch: Fetch<AgentStatusRow>) -> (r: Result<
        Vec<(i64, AgentStatus, bool)>,
        Error,
    >)
        ensures
            listed(r) == agent_states_answered(ids@, fetch),
    {
        if ids.len() == 0 {
            return Ok(Vec::new());
        }
        if matches!(fetch, Fetch::Absent) {
            return Err(Error::AgentNotFound(ids[0]));
        }
        match self.decode_agent_states(fetch) {
            Err(error) => Err(error),
            Ok(found) => match first_missing_agent(ids, &found) {
                Some(id) => Err(Error::AgentNotFound(id)),
                None => Ok(found),
            },
        }
    }

    fn decode_agent_states(&self, fetch: Fetch<AgentStatusRow>) -> (r: Result<
        Vec<(i64, AgentStatus, bool)>,
        Error,
    >)
        ensures
            listed(r) == agent_states_fetched(fetch),
    {
        proof {
            reveal_strlit("");
        }
        match fetch {
            Fetch::Absent => Ok(Vec::new()),
            Fetch::Refused(error) => Err(error),
            Fetch::Rows { rows, failure } => {
                let mut found: Vec<(i64, AgentStatus, bool)> = Vec::new();
                let ghost all = rows@;
                for row in it: rows.into_iter()
                    invariant
                        it.seq() == all,
                        agent_states_in(all) matches Err(error) ==> agent_states_fetched(
                            fetch,
                        ) == Err::<Seq<(i64, AgentStatus, bool)>, ErrorView>(error),
                        agent_states_in(all.take(it.index() as int)) == Ok::<Seq<(i64, AgentStatus, bool)>, ErrorView>(
                            found@,
                        ),
                {
                    proof {
                        let n = it.index() as int;
                        assert(all.take(n + 1).drop_last() =~= all.take(n));
                        if agent_states_in(all.take(n + 1)) is Err {
                            lemma_agent_states_fault(all, n + 1);
                        }
                    }
                    proof {
                        reveal_strlit("");
                    }
                    let id: i64 = match data(row.id, "agent id") {
                        Ok(value) => value,
                        Err(error) => return Err(error),
                    };
                    if id <= 0 {
                        return Err(Error::CorruptData(about("invalid agent id ", id, "")));
                    }
                    match decode_agent_state_at(row.state) {
                        Ok((status, acknowledged)) => found.push((id, status, acknowledged)),
                        Err(error) => return Err(error),
                    }
                }
                assert(all.take(all.len() as int) =~= all);
                match failure {
                    Some(failure) => Err(map_error(failure)),
                    None => Ok(found),
                }
            },
        }
    }

    /// The status of one agent, and whether it is acknowledged.
    pub fn state_agent(&self, id: i64, fetch: Fetch<AgentStatusRow>) -> (r: Result<
        (AgentStatus, bool),
        Error,
    >)
        ensures
            plain(r) == match first_of(
                agent_states_answered(seq![id], fetch),
                ErrorView::AgentNotFound(id),
            ) {
                Ok((_, status, acknowledged)) => Ok::<(AgentStatus, bool), ErrorView>(
                    (status, acknowledged),
                ),
                Err(error) => Err(error),
            },
    {
        let ids: Vec<i64> = vec![id];
        assert(ids@ =~= seq![id]);
        match self.states_agent(&ids, fetch) {
            Err(error) => Err(error),
            Ok(states) => {
                if states.len() == 0 {
                    Err(Error::AgentNotFound(id))
                } else {
                    Ok((states[0].1, states[0].2))
                }
            },
        }
    }

    /// The numbers of the agents whose statuses may have changed. All agents
    /// have to be from this storage.
    pub fn pending_agent(&self, agents: &Vec<AgentRun>) -> (r: Result<Vec<i64>, Error>)
        ensures
            listed(r) == pending_agents(*self, agents@),
    {
        let mut i: usize = 0;
        while i < agents.len()
            invariant
                i <= agents.len(),
                foreign_agent(*self, agents@.take(i as int)) is None,
            decreases agents.len() - i,
        {
            assert(agents@.take(i + 1).drop_last() =~= agents@.take(i as int));
            if !agents[i].belongs_to(self) {
                proof {
                    lemma_foreign_agent(*self, agents@, i + 1);
                }
                return Err(Error::AgentWrongStorage(agents[i].id()));
            }
            i = i + 1;
        }
        assert(agents@.take(agents@.len() as int) =~= agents@);
        let mut ids: Vec<i64> = Vec::new();
        let mut j: usize = 0;
        while j < agents.len()
            invariant
                j <= agents.len(),
                ids@ == agent_ids_pending(agents@.take(j as int)),
            decreases agents.len() - j,
        {
            assert(agents@.take(j + 1).drop_last() =~= agents@.take(j as int));
            if agents[j].needs_sync() {
                ids.push(agents[j].id());
            }
            j = j + 1;
        }
        Ok(ids)
    }

    /// Takes over the stored statuses of agents that may have changed.
    pub fn sync_agent(&self, agents: &mut Vec<AgentRun>, fetch: Fetch<AgentStatusRow>) -> (r:
        Result<(), Error>)
        ensures
            (final(agents)@, plain(r)) == agents_synced(*self, old(agents)@, fetch),
    {
        let ids: Vec<i64> = match self.pending_agent(agents) {
            Err(error) => return Err(error),
            Ok(ids) => ids,
        };
        if ids.len() == 0 {
            return Ok(());
        }
        let states: Vec<(i64, AgentStatus, bool)> = match self.states_agent(&ids, fetch) {
            Err(error) => return Err(error),
            Ok(states) => states,
        };
        observe_agents(agents, &states)
    }

    /// Asks for a new status of an agent.
    pub fn set_status_agent(&self, id: i64, status: AgentStatus) -> (r: Job)
        ensures
            r == (Job::SetStatusAgent { id, status }),
    {
        Job::SetStatusAgent { id, status }
    }

    /// Asks for an agent to be acknowledged; its status has to be done.
    pub fn acknowledge_agent(&self, id: i64) -> (r: Job)
        ensures
            r == (Job::AcknowledgeAgent { id }),
    {
        Job::AcknowledgeAgent { id }
    }

    /// Asks for an agent to be acknowledged should its status be done.
    pub fn acknowledge_agent_if_done(&self, id: i64) -> (r: Job)
        ensures
            r == (Job::AcknowledgeAgentIfDone { id }),
    {
        Job::AcknowledgeAgentIfDone { id }
    }

    /// Asks for a tracked agent to be removed.
    pub fn delete_agent(&self, id: i64) -> (r: Job)
        ensures
            r == (Job::DeleteAgent { id }),
    {
        Job::DeleteAgent { id }
    }
}

/// The largest number of an item, where there is one.
pub open spec fn latest(found: Result<Option<Option<i64>>, Error>) -> Result<Option<i64>, Error> {
    match found {
        Err(error) => Err(error),
        Ok(None) => Ok(None),
        Ok(Some(id)) => Ok(id),
    }
}

/// What is wrong with a range.
pub open spec fn range_fault(after: i64, through: i64, limit: usize, text: Seq<char>) -> Option<
    ErrorView,
> {
    if after < 0 || through < after || limit == 0 {
        Some(ErrorView::Invalid(text))
    } else if limit > i64::MAX {
        Some(ErrorView::Invalid("range limit is too large"@))
    } else {
        None
    }
}

} // verus!
