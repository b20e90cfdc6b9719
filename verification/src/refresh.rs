//! What the panel asks of storage, and what it makes of the answers.

use vstd::prelude::*;
use vstd::string::*;

use crate::agent::{agent_synced, AgentRun, AgentStatus};
use crate::error::{plain, Error, ErrorView};
use crate::focus::{FocusEvent, FocusStep};
use crate::observation::{
    agents_synced, pending_agents, pending_processes, processes_synced, synchronized_agents_stay,
    synchronized_processes_stay,
};
use crate::orchestrator::{
    client_choice, kinds_are_told_apart, tmux_client, unsupported_text, Orchestrator,
};
use crate::order::sorted_keys;
use crate::panel::{
    agent_ids, agent_keys, agent_slot, agents_ordered, find_agent, find_process, has_agent,
    has_process, lemma_agent_found, lemma_agent_slot, lemma_merged_agent_ordered,
    lemma_merged_process_ordered, lemma_process_found, lemma_process_slot, merged_agent,
    merged_agents, merged_process, merged_processes, process_ids, process_keys, process_slot,
    processes_ordered, PanelData, TrackedId,
};
use crate::process::{synced, ProcessRun, ProcessState};
use crate::query::{AgentQuery, AgentStatusRow, Fetch, ProcessQuery, ProcessStateRow};
use crate::storage::{range_fault, Job, Storage};
use crate::tables::{
    agent_ranges_skip_nothing, answers_agents, answers_processes, process_ranges_skip_nothing,
    selects_agent, selects_process, Tables,
};
use crate::text::{join, same_text, texts};

verus! {

/// How many new items are read at a time.
pub const DISCOVERY_BATCH: usize = 256;

/// How many old commands are read at a time.
pub const HISTORY_BATCH: usize = 128;

/// What happens while the panel is being synchronized.
pub enum SyncEvent {
    Started,
    LatestAgent(Result<Option<i64>, Error>),
    Agents { through: i64, found: Result<Vec<AgentRun>, Error> },
    LatestProcess(Result<Option<i64>, Error>),
    Processes { through: i64, found_processes: Result<Vec<ProcessRun>, Error> },
    AgentStates(Fetch<AgentStatusRow>),
    ProcessStates(Fetch<ProcessStateRow>),
}

/// What is asked of storage next.
pub enum SyncStep {
    LatestAgent,
    Agents { through: i64, query: AgentQuery },
    LatestProcess,
    Processes { through: i64, process_query: ProcessQuery },
    AgentStates(Vec<i64>),
    ProcessStates(Vec<i64>),
    Done,
    Failed(Error),
}

/// Up to where the panel has seen items; what has a larger number is new to it.
#[derive(Clone, Copy, Debug, PartialEq, Eq, Structural)]
pub struct Marks {
    pub agent: i64,
    pub process: i64,
}

/// What happens while the panel is being loaded.
pub enum LoadEvent {
    Started,
    LatestAgent(Result<Option<i64>, Error>),
    LatestProcess { agent_mark: i64, latest: Result<Option<i64>, Error> },
    Agents { marks: Marks, found: Result<Vec<AgentRun>, Error> },
    Processes {
        marks: Marks,
        agents: Vec<AgentRun>,
        found_processes: Result<Vec<ProcessRun>, Error>,
    },
}

/// What is asked of storage next.
pub enum LoadStep {
    LatestAgent,
    LatestProcess { agent_mark: i64 },
    Agents { marks: Marks, query: AgentQuery },
    Processes { marks: Marks, agents: Vec<AgentRun>, process_query: ProcessQuery },
    Loaded(PanelData),
    Failed(Error),
}

/// A number, or zero.
pub open spec fn or_zero(id: Option<i64>) -> i64 {
    match id {
        Some(id) => id,
        None => 0,
    }
}

/// How far agents were read.
pub open spec fn agents_through(found: Seq<AgentRun>, through: i64) -> i64 {
    if found.len() == 0 {
        through
    } else {
        found.last().id
    }
}

/// How far commands were read.
pub open spec fn processes_through(found: Seq<ProcessRun>, through: i64) -> i64 {
    if found.len() == 0 {
        through
    } else {
        found.last().id
    }
}

/// Whether a step is a failure with a plain error.
pub open spec fn step_fails(r: SyncStep, error: ErrorView) -> bool {
    r matches SyncStep::Failed(reason) && reason@ == error
}

/// Which error keeps the panel from being loaded.
pub open spec fn load_fault(
    latest_agent: Result<Option<i64>, Error>,
    latest_process: Result<Option<i64>, Error>,
    agents: Result<Vec<AgentRun>, Error>,
    processes: Result<Vec<ProcessRun>, Error>,
) -> Option<ErrorView> {
    match (latest_agent, latest_process, agents, processes) {
        (Err(error), _, _, _) => Some(error@),
        (_, Err(error), _, _) => Some(error@),
        (_, _, Err(error), _) => Some(error@),
        (_, _, _, Err(error)) => Some(error@),
        (Ok(_), Ok(_), Ok(agents), Ok(processes)) => match merged_agents(Seq::empty(), agents@).1 {
            Err(error) => Some(error),
            Ok(_) => match merged_processes(Seq::empty(), processes@).1 {
                Err(error) => Some(error),
                Ok(_) => None,
            },
        },
    }
}

impl PanelData {
    /// Whether storage, the marks, the history, the size of the view and the
    /// message are those of a panel that was just loaded. Nothing is said of its
    /// items or its selection.
    pub open spec fn blank(self, storage: Storage, dry_run: bool, marks: Marks) -> bool {
        &&& self.storage == storage
        &&& self.dry_run == dry_run
        &&& self.agent_discovered_through == marks.agent
        &&& self.discovered_through == marks.process
        &&& self.history_after == 0
        &&& self.history_through is None
        &&& !self.history_loaded
        &&& !self.show_history
        &&& self.viewport_len == 0
        &&& self.message is None
    }

    /// Whether the panel is what is loaded with the given marks and lists: it holds
    /// what was listed, and the first item of its list is selected.
    pub open spec fn loaded_from(
        self,
        storage: Storage,
        dry_run: bool,
        marks: Marks,
        agents: Seq<AgentRun>,
        processes: Seq<ProcessRun>,
    ) -> bool {
        &&& self.wf()
        &&& self.settled()
        &&& self.blank(storage, dry_run, marks)
        &&& self.agents@ == merged_agents(Seq::empty(), agents).0
        &&& self.processes@ == merged_processes(Seq::empty(), processes).0
        &&& self.selected == if self.listing().len() == 0 {
            None
        } else {
            Some(self.listing()[0])
        }
    }

    /// What an event of the loading leads to: the largest numbers are asked for
    /// before the lists, so that whatever is missing in a list is new.
    pub open spec fn load_follows(
        storage: Storage,
        dry_run: bool,
        event: LoadEvent,
        r: LoadStep,
    ) -> bool {
        match event {
            LoadEvent::Started => r is LatestAgent,
            LoadEvent::LatestAgent(latest) => r == match latest {
                Err(error) => LoadStep::Failed(error),
                Ok(id) => LoadStep::LatestProcess { agent_mark: or_zero(id) },
            },
            LoadEvent::LatestProcess { agent_mark, latest } => r == match latest {
                Err(error) => LoadStep::Failed(error),
                Ok(id) => LoadStep::Agents {
                    marks: Marks { agent: agent_mark, process: or_zero(id) },
                    query: AgentQuery::Unkilled,
                },
            },
            LoadEvent::Agents { marks, found } => r == match found {
                Err(error) => LoadStep::Failed(error),
                Ok(agents) => LoadStep::Processes {
                    marks,
                    agents,
                    process_query: ProcessQuery::Unacked,
                },
            },
            LoadEvent::Processes { marks, agents, found_processes } => {
                let fault = load_fault(Ok(None), Ok(None), Ok(agents), found_processes);
                match r {
                    LoadStep::Loaded(panel) => fault is None && panel.loaded_from(
                        storage,
                        dry_run,
                        marks,
                        agents@,
                        found_processes->Ok_0@,
                    ),
                    LoadStep::Failed(error) => fault == Some(error@),
                    _ => false,
                }
            },
        }
    }

    /// Loads the panel step by step: what to ask next, on an event.
    pub fn load_next(storage: Storage, dry_run: bool, event: LoadEvent) -> (r: LoadStep)
        ensures
            PanelData::load_follows(storage, dry_run, event, r),
    {
        match event {
            LoadEvent::Started => LoadStep::LatestAgent,
            LoadEvent::LatestAgent(latest) => match latest {
                Err(error) => LoadStep::Failed(error),
                Ok(Some(id)) => LoadStep::LatestProcess { agent_mark: id },
                Ok(None) => LoadStep::LatestProcess { agent_mark: 0 },
            },
            LoadEvent::LatestProcess { agent_mark, latest } => {
                let process: i64 = match latest {
                    Err(error) => return LoadStep::Failed(error),
                    Ok(Some(id)) => id,
                    Ok(None) => 0,
                };
                LoadStep::Agents {
                    marks: Marks { agent: agent_mark, process },
                    query: storage.unkilled_agent(),
                }
            },
            LoadEvent::Agents { marks, found } => match found {
                Err(error) => LoadStep::Failed(error),
                Ok(agents) => LoadStep::Processes {
                    marks,
                    agents,
                    process_query: storage.unacked_process(),
                },
            },
            LoadEvent::Processes { marks, agents, found_processes } => match PanelData::load(
                storage,
                dry_run,
                Ok(Some(marks.agent)),
                Ok(Some(marks.process)),
                Ok(agents),
                found_processes,
            ) {
                Err(error) => LoadStep::Failed(error),
                Ok(panel) => LoadStep::Loaded(panel),
            },
        }
    }

    /// Loads the panel, given the largest numbers, the agents that were not killed,
    /// and the commands that are not acknowledged.
    pub fn load(
        storage: Storage,
        dry_run: bool,
        latest_agent: Result<Option<i64>, Error>,
        latest_process: Result<Option<i64>, Error>,
        agents: Result<Vec<AgentRun>, Error>,
        processes: Result<Vec<ProcessRun>, Error>,
    ) -> (r: Result<PanelData, Error>)
        ensures
            match r {
                Err(error) => load_fault(latest_agent, latest_process, agents, processes) == Some(
                    error@,
                ),
                Ok(panel) => {
                    &&& load_fault(latest_agent, latest_process, agents, processes) is None
                    &&& panel.loaded_from(
                        storage,
                        dry_run,
                        (Marks {
                            agent: or_zero(latest_agent->Ok_0),
                            process: or_zero(latest_process->Ok_0),
                        }),
                        agents->Ok_0@,
                        processes->Ok_0@,
                    )
                },
            },
    {
        let agent_discovered_through: i64 = match latest_agent {
            Err(error) => return Err(error),
            Ok(Some(id)) => id,
            Ok(None) => 0,
        };
        let discovered_through: i64 = match latest_process {
            Err(error) => return Err(error),
            Ok(Some(id)) => id,
            Ok(None) => 0,
        };
        let initial_agents: Vec<AgentRun> = match agents {
            Err(error) => return Err(error),
            Ok(found) => found,
        };
        let initial_processes: Vec<ProcessRun> = match processes {
            Err(error) => return Err(error),
            Ok(found) => found,
        };
        let mut panel: PanelData = PanelData {
            storage,
            agents: Vec::new(),
            agent_discovered_through,
            processes: Vec::new(),
            discovered_through,
            history_after: 0,
            history_through: None,
            history_loaded: false,
            show_history: false,
            selected: None,
            viewport_start: 0,
            viewport_len: 0,
            dry_run,
            message: None,
        };
        match panel.merge_agents(initial_agents) {
            Err(error) => return Err(error),
            Ok(()) => {},
        }
        let ghost before = panel;
        match panel.merge_processes(initial_processes) {
            Err(error) => return Err(error),
            Ok(()) => {},
        }
        proof {
            let none = process_ids(
                process_keys(before.processes@, false),
            );
            sorted_keys(process_keys(before.processes@, false));
            assert(none.len() == 0);
            if before.listing().len() > 0 {
                assert(panel.listing()[0] == before.listing()[0]);
                assert(panel.listing().contains(before.listing()[0]));
            }
        }
        panel.normalize_selection();
        Ok(panel)
    }

    /// Asking for new agents, as long as there may be any.
    pub open spec fn asks_agents(self, through: i64, r: SyncStep) -> bool {
        let after = self.agent_discovered_through;
        if after < through {
            match range_fault(after, through, DISCOVERY_BATCH, "invalid agent range"@) {
                Some(error) => step_fails(r, error),
                None => r == (SyncStep::Agents {
                    through,
                    query: AgentQuery::Range { after, through, limit: DISCOVERY_BATCH as i64 },
                }),
            }
        } else {
            r is LatestProcess
        }
    }

    /// Asking for new commands, as long as there may be any; then for the
    /// statuses of the agents that may have changed.
    pub open spec fn asks_processes(self, through: i64, after_step: PanelData, r: SyncStep) -> bool {
        let after = self.discovered_through;
        if after < through {
            after_step == self && match range_fault(
                after,
                through,
                DISCOVERY_BATCH,
                "invalid process range"@,
            ) {
                Some(error) => step_fails(r, error),
                None => r == (SyncStep::Processes {
                    through,
                    process_query: ProcessQuery::Range {
                        after,
                        through,
                        limit: DISCOVERY_BATCH as i64,
                    },
                }),
            }
        } else {
            self.asks_agent_states(after_step, r)
        }
    }

    /// Asking for the statuses of the agents that may have changed, where there
    /// are any; then for the states of the commands.
    pub open spec fn asks_agent_states(self, after_step: PanelData, r: SyncStep) -> bool {
        match pending_agents(self.storage, self.agents@) {
            Err(error) => after_step == self && step_fails(r, error),
            Ok(ids) => if ids.len() == 0 {
                self.asks_process_states(after_step, r)
            } else {
                after_step == self && (r matches SyncStep::AgentStates(asked) && asked@ == ids)
            },
        }
    }

    /// Asking for the states of the commands that may have changed, where there
    /// are any.
    pub open spec fn asks_process_states(self, after_step: PanelData, r: SyncStep) -> bool {
        match pending_processes(self.storage, self.processes@) {
            Err(error) => after_step == self && step_fails(r, error),
            Ok(ids) => if ids.len() == 0 {
                after_step == self.normalized() && r is Done
            } else {
                after_step == self && (r matches SyncStep::ProcessStates(asked) && asked@ == ids)
            },
        }
    }

    /// What an event of the synchronization does to the panel, and what it leads
    /// to: new agents, new commands, then the states of all that may change.
    pub open spec fn sync_follows(self, event: SyncEvent, after: PanelData, r: SyncStep) -> bool {
        match event {
            SyncEvent::Started => after == self && r is LatestAgent,
            SyncEvent::LatestAgent(latest) => after == self && match latest {
                Err(error) => r == SyncStep::Failed(error),
                Ok(id) => self.asks_agents(or_zero(id), r),
            },
            SyncEvent::Agents { through, found } => match found {
                Err(error) => after == self && r == SyncStep::Failed(error),
                Ok(found) => {
                    let (agents, merged) = merged_agents(self.agents@, found@);
                    let with_agents = PanelData { agents: after.agents, ..self };
                    &&& after.agents@ == agents
                    &&& match merged {
                        Err(error) => after == with_agents && step_fails(r, error),
                        Ok(_) => after == (PanelData {
                            agent_discovered_through: agents_through(found@, through),
                            ..with_agents.normalized()
                        }) && after.asks_agents(through, r),
                    }
                },
            },
            SyncEvent::LatestProcess(latest) => match latest {
                Err(error) => after == self && r == SyncStep::Failed(error),
                Ok(id) => self.asks_processes(or_zero(id), after, r),
            },
            SyncEvent::Processes { through, found_processes } => match found_processes {
                Err(error) => after == self && r == SyncStep::Failed(error),
                Ok(found) => {
                    let (processes, merged) = merged_processes(self.processes@, found@);
                    let with_processes = PanelData { processes: after.processes, ..self };
                    &&& after.processes@ == processes
                    &&& match merged {
                        Err(error) => after == with_processes && step_fails(r, error),
                        Ok(_) => (PanelData {
                            discovered_through: processes_through(found@, through),
                            ..with_processes.normalized()
                        }).asks_processes(through, after, r),
                    }
                },
            },
            SyncEvent::AgentStates(fetch) => {
                let (agents, synced) = agents_synced(self.storage, self.agents@, fetch);
                let with_agents = PanelData { agents: after.agents, ..self };
                &&& after.agents@ == agents
                &&& match synced {
                    Err(error) => after == with_agents && step_fails(r, error),
                    Ok(_) => with_agents.asks_process_states(after, r),
                }
            },
            SyncEvent::ProcessStates(fetch) => {
                let (processes, synced) = processes_synced(self.storage, self.processes@, fetch);
                let with_processes = PanelData { processes: after.processes, ..self };
                &&& after.processes@ == processes
                &&& match synced {
                    Err(error) => after == with_processes && step_fails(r, error),
                    Ok(_) => after == with_processes.normalized() && r is Done,
                }
            },
        }
    }

    fn next_agents(&self, through: i64) -> (r: SyncStep)
        ensures
            self.asks_agents(through, r),
    {
        if self.agent_discovered_through < through {
            match self.storage.range_agent(self.agent_discovered_through, through, DISCOVERY_BATCH) {
                Err(error) => SyncStep::Failed(error),
                Ok(query) => SyncStep::Agents { through, query },
            }
        } else {
            SyncStep::LatestProcess
        }
    }

    fn next_processes(&mut self, through: i64) -> (r: SyncStep)
        ensures
            old(self).asks_processes(through, *final(self), r),
            old(self).wf() ==> final(self).wf(),
    {
        if self.discovered_through < through {
            match self.storage.range_process(self.discovered_through, through, DISCOVERY_BATCH) {
                Err(error) => SyncStep::Failed(error),
                Ok(process_query) => SyncStep::Processes { through, process_query },
            }
        } else {
            self.next_agent_states()
        }
    }

    fn next_agent_states(&mut self) -> (r: SyncStep)
        ensures
            old(self).asks_agent_states(*final(self), r),
            old(self).wf() ==> final(self).wf(),
    {
        match self.storage.pending_agent(&self.agents) {
            Err(error) => SyncStep::Failed(error),
            Ok(ids) => {
                if ids.len() == 0 {
                    self.next_process_states()
                } else {
                    SyncStep::AgentStates(ids)
                }
            },
        }
    }

    fn next_process_states(&mut self) -> (r: SyncStep)
        ensures
            old(self).asks_process_states(*final(self), r),
            old(self).wf() ==> final(self).wf(),
    {
        match self.storage.pending_process(&self.processes) {
            Err(error) => SyncStep::Failed(error),
            Ok(ids) => {
                if ids.len() == 0 {
                    self.normalize_selection();
                    SyncStep::Done
                } else {
                    SyncStep::ProcessStates(ids)
                }
            },
        }
    }

    fn take_agents(&mut self, through: i64, found: Result<Vec<AgentRun>, Error>) -> (r: SyncStep)
        requires
            old(self).wf(),
        ensures
            old(self).sync_follows(SyncEvent::Agents { through, found }, *final(self), r),
            final(self).wf(),
    {
        let found: Vec<AgentRun> = match found {
            Err(error) => return SyncStep::Failed(error),
            Ok(found) => found,
        };
        let loaded: i64 = if found.len() == 0 {
            through
        } else {
            found[found.len() - 1].id
        };
        match self.merge_agents(found) {
            Err(error) => SyncStep::Failed(error),
            Ok(()) => {
                self.agent_discovered_through = loaded;
                self.next_agents(through)
            },
        }
    }

    fn take_processes(&mut self, through: i64, found: Result<Vec<ProcessRun>, Error>) -> (r:
        SyncStep)
        requires
            old(self).wf(),
        ensures
            old(self).sync_follows(
                SyncEvent::Processes { through, found_processes: found },
                *final(self),
                r,
            ),
            final(self).wf(),
    {
        let found: Vec<ProcessRun> = match found {
            Err(error) => return SyncStep::Failed(error),
            Ok(found) => found,
        };
        let loaded: i64 = if found.len() == 0 {
            through
        } else {
            found[found.len() - 1].id
        };
        match self.merge_processes(found) {
            Err(error) => SyncStep::Failed(error),
            Ok(()) => {
                self.discovered_through = loaded;
                self.next_processes(through)
            },
        }
    }

    fn take_agent_states(&mut self, fetch: Fetch<AgentStatusRow>) -> (r: SyncStep)
        requires
            old(self).wf(),
        ensures
            old(self).sync_follows(SyncEvent::AgentStates(fetch), *final(self), r),
            final(self).wf(),
    {
        proof {
            synchronized_agents_stay(self.storage, self.agents@, fetch);
        }
        match self.storage.sync_agent(&mut self.agents, fetch) {
            Err(error) => SyncStep::Failed(error),
            Ok(()) => self.next_process_states(),
        }
    }

    fn take_process_states(&mut self, fetch: Fetch<ProcessStateRow>) -> (r: SyncStep)
        requires
            old(self).wf(),
        ensures
            old(self).sync_follows(SyncEvent::ProcessStates(fetch), *final(self), r),
            final(self).wf(),
    {
        proof {
            synchronized_processes_stay(self.storage, self.processes@, fetch);
        }
        match self.storage.sync_process(&mut self.processes, fetch) {
            Err(error) => SyncStep::Failed(error),
            Ok(()) => {
                self.normalize_selection();
                SyncStep::Done
            },
        }
    }

    /// Synchronizes the panel with storage: what to ask next, on an event.
    pub fn sync(&mut self, event: SyncEvent) -> (r: SyncStep)
        requires
            old(self).wf(),
        ensures
            old(self).sync_follows(event, *final(self), r),
            final(self).wf(),
    {
        match event {
            SyncEvent::Started => SyncStep::LatestAgent,
            SyncEvent::LatestAgent(latest) => match latest {
                Err(error) => SyncStep::Failed(error),
                Ok(Some(id)) => self.next_agents(id),
                Ok(None) => self.next_agents(0),
            },
            SyncEvent::Agents { through, found } => self.take_agents(through, found),
            SyncEvent::LatestProcess(latest) => match latest {
                Err(error) => SyncStep::Failed(error),
                Ok(Some(id)) => self.next_processes(id),
                Ok(None) => self.next_processes(0),
            },
            SyncEvent::Processes { through, found_processes } => self.take_processes(
                through,
                found_processes,
            ),
            SyncEvent::AgentStates(fetch) => self.take_agent_states(fetch),
            SyncEvent::ProcessStates(fetch) => self.take_process_states(fetch),
        }
    }
}

impl PanelData {
    /// How far the history reaches.
    pub open spec fn history_end(self) -> i64 {
        or_zero(self.history_through)
    }

    /// Whether old commands have to be read for the next part of the history.
    pub open spec fn history_wanted(self) -> bool {
        self.show_history && !self.history_loaded && self.history_after < self.history_end()
    }

    /// What to ask for the next part of the history, where anything has to be
    /// asked.
    pub fn history_query(&self) -> (r: Option<Result<ProcessQuery, Error>>)
        ensures
            match r {
                None => !self.history_wanted(),
                Some(asked) => self.history_wanted() && match asked {
                    Ok(query) => range_fault(
                        self.history_after,
                        self.history_end(),
                        HISTORY_BATCH,
                        "invalid process range"@,
                    ) is None && query == (ProcessQuery::Range {
                        after: self.history_after,
                        through: self.history_end(),
                        limit: HISTORY_BATCH as i64,
                    }),
                    Err(error) => range_fault(
                        self.history_after,
                        self.history_end(),
                        HISTORY_BATCH,
                        "invalid process range"@,
                    ) == Some(error@),
                },
            },
    {
        let through: i64 = match self.history_through {
            Some(through) => through,
            None => 0,
        };
        if self.history_loaded || !self.show_history || self.history_after >= through {
            None
        } else {
            Some(self.storage.range_process(self.history_after, through, HISTORY_BATCH))
        }
    }

    /// Takes over the next part of the history, where one was asked for.
    pub fn load_history_batch(&mut self, found: Result<Vec<ProcessRun>, Error>) -> (r: Result<
        (),
        Error,
    >)
        requires
            old(self).wf(),
        ensures
            final(self).wf(),
            old(self).history_follows(found, *final(self), r),
    {
        if self.history_loaded || !self.show_history {
            return Ok(());
        }
        let through: i64 = match self.history_through {
            Some(through) => through,
            None => 0,
        };
        if self.history_after >= through {
            self.history_loaded = true;
            self.normalize_selection();
            return Ok(());
        }
        let found: Vec<ProcessRun> = match found {
            Err(error) => return Err(error),
            Ok(found) => found,
        };
        let loaded: i64 = if found.len() == 0 {
            through
        } else {
            found[found.len() - 1].id
        };
        match self.merge_processes(found) {
            Err(error) => return Err(error),
            Ok(()) => {},
        }
        self.history_after = loaded;
        if self.history_after >= through {
            self.history_loaded = true;
        }
        self.normalize_selection();
        Ok(())
    }

    /// What a part of the history does to the panel.
    pub open spec fn history_follows(
        self,
        found: Result<Vec<ProcessRun>, Error>,
        after: PanelData,
        r: Result<(), Error>,
    ) -> bool {
        if self.history_loaded || !self.show_history {
            after == self && r is Ok
        } else if !self.history_wanted() {
            after == (PanelData { history_loaded: true, ..self }).normalized() && r is Ok
        } else {
            match found {
                Err(error) => after == self && r == Err::<(), Error>(error),
                Ok(found) => {
                    let (processes, merged) = merged_processes(self.processes@, found@);
                    let with_processes = PanelData { processes: after.processes, ..self };
                    let reached = processes_through(found@, self.history_end());
                    &&& after.processes@ == processes
                    &&& plain(r) == merged
                    &&& after == if merged is Err {
                        with_processes
                    } else {
                        (PanelData {
                            history_after: reached,
                            history_loaded: reached >= self.history_end(),
                            ..with_processes.normalized()
                        }).normalized()
                    }
                },
            }
        }
    }

    /// Whether the end of the history has to be asked for before it is shown.
    pub fn wants_history_end(&self) -> (r: bool)
        ensures
            r == (!self.show_history && self.history_through is None),
    {
        !self.show_history && self.history_through.is_none()
    }

    /// Shows or hides the history. The largest number of a command, which is the
    /// end of the history, is looked at only where it is not known yet.
    pub fn toggle_history(&mut self, latest: Result<Option<i64>, Error>) -> (r: Result<(), Error>)
        ensures
            old(self).wf() ==> final(self).wf(),
            old(self).toggle_follows(latest, *final(self), r),
    {
        if !self.show_history && self.history_through.is_none() {
            let through: i64 = match latest {
                Err(error) => return Err(error),
                Ok(Some(id)) => id,
                Ok(None) => 0,
            };
            self.history_through = Some(through);
            self.history_loaded = through == 0;
        }
        self.show_history = !self.show_history;
        self.message = None;
        self.normalize_selection();
        Ok(())
    }

    /// What showing or hiding the history does to the panel.
    pub open spec fn toggle_follows(
        self,
        latest: Result<Option<i64>, Error>,
        after: PanelData,
        r: Result<(), Error>,
    ) -> bool {
        if !self.show_history && self.history_through is None {
            match latest {
                Err(error) => after == self && r == Err::<(), Error>(error),
                Ok(id) => r is Ok && after == (PanelData {
                    history_through: Some(or_zero(id)),
                    history_loaded: or_zero(id) == 0,
                    show_history: true,
                    message: None,
                    ..self
                }).normalized(),
            }
        } else {
            r is Ok && after == (PanelData {
                show_history: !self.show_history,
                message: None,
                ..self
            }).normalized()
        }
    }

    /// What to do for an item to be removed. Nothing is removed in a dry run.
    pub fn delete_job(&self, target: TrackedId) -> (r: Result<Job, Error>)
        ensures
            plain(r) == if self.dry_run {
                Err::<Job, ErrorView>(ErrorView::ReadOnly)
            } else {
                Ok(
                    match target {
                        TrackedId::Agent(id) => Job::DeleteAgent { id },
                        TrackedId::Process(id) => Job::DeleteProcess { id },
                    },
                )
            },
    {
        if self.dry_run {
            return Err(Error::ReadOnly);
        }
        match target {
            TrackedId::Agent(id) => Ok(self.storage.delete_agent(id)),
            TrackedId::Process(id) => Ok(self.storage.delete_process(id)),
        }
    }

    /// Forgets an item, given what came of its removal from storage.
    pub fn delete(&mut self, target: TrackedId, removed: Result<(), Error>) -> (r: Result<
        (),
        Error,
    >)
        requires
            old(self).wf(),
        ensures
            final(self).wf(),
            old(self).delete_follows(target, removed, *final(self), r),
    {
        if self.dry_run {
            return Err(Error::ReadOnly);
        }
        match removed {
            Err(error) => return Err(error),
            Ok(()) => {},
        }
        match target {
            TrackedId::Agent(id) => {
                let slot: usize = find_agent(&self.agents, id);
                if slot < self.agents.len() && self.agents[slot].id == id {
                    let _ = self.agents.remove(slot);
                }
            },
            TrackedId::Process(id) => {
                let slot: usize = find_process(&self.processes, id);
                if slot < self.processes.len() && self.processes[slot].id == id {
                    let _ = self.processes.remove(slot);
                }
            },
        }
        self.message = None;
        self.normalize_selection();
        Ok(())
    }

    /// What the removal of an item does to the panel.
    pub open spec fn delete_follows(
        self,
        target: TrackedId,
        removed: Result<(), Error>,
        after: PanelData,
        r: Result<(), Error>,
    ) -> bool {
        if self.dry_run {
            after == self && plain(r) == Err::<(), ErrorView>(ErrorView::ReadOnly)
        } else {
            match removed {
                Err(error) => after == self && r == Err::<(), Error>(error),
                Ok(_) => {
                    &&& r is Ok
                    &&& after == (PanelData {
                        agents: after.agents,
                        processes: after.processes,
                        message: None,
                        ..self
                    }).normalized()
                    &&& after.agents@ == match target {
                        TrackedId::Agent(id) => if has_agent(self.agents@, id) {
                            self.agents@.remove(agent_slot(self.agents@, id))
                        } else {
                            self.agents@
                        },
                        TrackedId::Process(_) => self.agents@,
                    }
                    &&& after.processes@ == match target {
                        TrackedId::Agent(_) => self.processes@,
                        TrackedId::Process(id) => if has_process(self.processes@, id) {
                            self.processes@.remove(process_slot(self.processes@, id))
                        } else {
                            self.processes@
                        },
                    }
                },
            }
        }
    }
}

/// What is wrong with the arguments of a navigation; only tmux looks at them.
pub open spec fn argument_fault(tmux: bool, args: Seq<Seq<char>>) -> Option<ErrorView> {
    if tmux && (client_choice(args) is Unnamed || client_choice(args) is Unsupported) {
        Some(ErrorView::Invalid(unsupported_text(args)))
    } else {
        None
    }
}

/// Checks the arguments of a navigation without navigating.
pub fn validate_navigation_args(kind: &str, args: &[String]) -> (r: Result<(), Error>)
    ensures
        plain(r) == match argument_fault(kind@ == "tmux"@, texts(args@)) {
            None => Ok::<(), ErrorView>(()),
            Some(error) => Err(error),
        },
{
    if !same_text(kind, "tmux") {
        return Ok(());
    }
    match tmux_client(args) {
        Ok(_) => Ok(()),
        Err(_) => Err(
            Error::Invalid(
                "unsupported tmux navigation arguments: ".to_owned().concat(
                    join(args, " ").as_str(),
                ),
            ),
        ),
    }
}

/// What happens while an item of the panel is being focused.
pub enum TargetEvent {
    Agent { id: i64, agent_event: FocusEvent<(AgentStatus, bool)> },
    Process { id: i64, process_event: FocusEvent<ProcessState> },
}

/// What to do next.
pub enum TargetStep {
    /// Go on with the focus; it is over with an arrival or a failure.
    Focus(FocusStep),
    /// The dry run is over; the panel says where it would have led.
    Previewed,
}

/// The text of a dry run.
pub open spec fn preview_text(host: Orchestrator) -> Seq<char> {
    "dry run: would navigate to "@ + host.description() + " ("@ + host.directory() + ")"@
}

fn preview_of(host: &Orchestrator) -> (r: String)
    ensures
        r@ == preview_text(*host),
{
    let mut text: String = "dry run: would navigate to ".to_owned();
    text.append(host.describe().as_str());
    text.append(" (");
    text.append(host.cwd().as_str());
    text.append(")");
    text
}

impl PanelData {
    /// The panel with a message, and its selection on a listed item.
    pub open spec fn says(self, text: Seq<char>, after: PanelData) -> bool {
        &&& after.message matches Some(message) && message@ == text
        &&& after == (PanelData { message: after.message, ..self }).normalized()
    }

    /// Whether an event is one that a dry run can meet.
    pub open spec fn meets(self, event: TargetEvent) -> bool {
        self.dry_run ==> match event {
            TargetEvent::Agent { agent_event, .. } => agent_event is Asked || agent_event is Read,
            TargetEvent::Process { process_event, .. } => process_event is Asked
                || process_event is Read,
        }
    }

    /// What focusing an agent in a dry run does: its status is read, and the
    /// panel says where its host is.
    pub open spec fn previews_agent(
        self,
        k: int,
        event: FocusEvent<(AgentStatus, bool)>,
        after: PanelData,
        r: TargetStep,
    ) -> bool {
        let agent = self.agents@[k];
        match event {
            FocusEvent::Asked(args) => match argument_fault(
                agent.orchestrator.is_tmux(),
                texts(args@),
            ) {
                Some(error) => after == self && target_fails(r, error),
                None => if agent.pending() {
                    after == self && (r matches TargetStep::Focus(FocusStep::Read { target })
                        && target@.len() == 0)
                } else {
                    r is Previewed && self.says(preview_text(agent.orchestrator), after)
                },
            },
            FocusEvent::Read { answer, .. } => {
                let changed = PanelData { agents: after.agents, ..self };
                &&& after.agents@ == self.agents@.update(k, after.agents@[k])
                &&& match r {
                    TargetStep::Previewed => agent_synced(
                        agent,
                        answer,
                        after.agents@[k],
                        Ok(()),
                    ) && changed.says(preview_text(agent.orchestrator), after),
                    TargetStep::Focus(step) => after == changed && (step matches FocusStep::Failed(
                        error,
                    ) && agent_synced(agent, answer, after.agents@[k], Err(error))),
                }
            },
            _ => true,
        }
    }

    /// What focusing a command in a dry run does: its state is read, and the
    /// panel says where its host is.
    pub open spec fn previews_process(
        self,
        k: int,
        event: FocusEvent<ProcessState>,
        after: PanelData,
        r: TargetStep,
    ) -> bool {
        let process = self.processes@[k];
        match event {
            FocusEvent::Asked(args) => match argument_fault(
                process.orchestrator.is_tmux(),
                texts(args@),
            ) {
                Some(error) => after == self && target_fails(r, error),
                None => if process.pending() {
                    after == self && (r matches TargetStep::Focus(FocusStep::Read { target })
                        && target@.len() == 0)
                } else {
                    r is Previewed && self.says(preview_text(process.orchestrator), after)
                },
            },
            FocusEvent::Read { answer, .. } => {
                let changed = PanelData { processes: after.processes, ..self };
                &&& after.processes@ == self.processes@.update(k, after.processes@[k])
                &&& match r {
                    TargetStep::Previewed => synced(
                        process,
                        answer,
                        after.processes@[k],
                        Ok(()),
                    ) && changed.says(preview_text(process.orchestrator), after),
                    TargetStep::Focus(step) => after == changed && (step matches FocusStep::Failed(
                        error,
                    ) && synced(process, answer, after.processes@[k], Err(error))),
                }
            },
            _ => true,
        }
    }

    /// What focusing an item of the panel does. An item that the panel does not
    /// hold cannot be focused; an arrival clears the message.
    pub open spec fn focus_follows(
        self,
        event: TargetEvent,
        after: PanelData,
        r: TargetStep,
    ) -> bool {
        match event {
            TargetEvent::Agent { id, agent_event } => {
                let k = agent_slot(self.agents@, id);
                if !has_agent(self.agents@, id) {
                    after == self && target_fails(r, ErrorView::AgentNotFound(id))
                } else if self.dry_run {
                    self.previews_agent(k, agent_event, after, r)
                } else {
                    let changed = PanelData { agents: after.agents, ..self };
                    &&& after.agents@ == self.agents@.update(k, after.agents@[k])
                    &&& r matches TargetStep::Focus(step) && self.agents@[k].focused(
                        agent_event,
                        after.agents@[k],
                        step,
                    ) && after == if step is Arrived {
                        (PanelData { message: None, ..changed }).normalized()
                    } else {
                        changed
                    }
                }
            },
            TargetEvent::Process { id, process_event } => {
                let k = process_slot(self.processes@, id);
                if !has_process(self.processes@, id) {
                    after == self && target_fails(r, ErrorView::NotFound(id))
                } else if self.dry_run {
                    self.previews_process(k, process_event, after, r)
                } else {
                    let changed = PanelData { processes: after.processes, ..self };
                    &&& after.processes@ == self.processes@.update(k, after.processes@[k])
                    &&& r matches TargetStep::Focus(step) && self.processes@[k].focused(
                        process_event,
                        after.processes@[k],
                        step,
                    ) && after == if step is Arrived {
                        (PanelData { message: None, ..changed }).normalized()
                    } else {
                        changed
                    }
                }
            },
        }
    }

    /// Focuses an item of the panel: what to do next, on an event.
    pub fn focus(&mut self, event: TargetEvent) -> (r: TargetStep)
        requires
            old(self).wf(),
            old(self).meets(event),
        ensures
            final(self).wf(),
            old(self).focus_follows(event, *final(self), r),
    {
        match event {
            TargetEvent::Agent { id, agent_event } => self.focus_agent(id, agent_event),
            TargetEvent::Process { id, process_event } => self.focus_process(id, process_event),
        }
    }

    fn focus_agent(&mut self, id: i64, event: FocusEvent<(AgentStatus, bool)>) -> (r: TargetStep)
        requires
            old(self).wf(),
            old(self).meets(TargetEvent::Agent { id, agent_event: event }),
        ensures
            final(self).wf(),
            old(self).focus_follows(
                TargetEvent::Agent { id, agent_event: event },
                *final(self),
                r,
            ),
    {
        let k: usize = find_agent(&self.agents, id);
        if k >= self.agents.len() || self.agents[k].id != id {
            return TargetStep::Focus(FocusStep::Failed(Error::AgentNotFound(id)));
        }
        let ghost before = *self;
        if !self.dry_run {
            let step: FocusStep = self.agents[k].focus(event);
            assert(self.agents@ =~= before.agents@.update(k as int, self.agents@[k as int]));
            if matches!(step, FocusStep::Arrived(_)) {
                self.message = None;
                self.normalize_selection();
            }
            return TargetStep::Focus(step);
        }
        match event {
            FocusEvent::Asked(args) => {
                proof {
                    kinds_are_told_apart();
                }
                match validate_navigation_args(
                    self.agents[k].orchestrator.kind(),
                    args.as_slice(),
                ) {
                    Err(error) => return TargetStep::Focus(FocusStep::Failed(error)),
                    Ok(()) => {},
                }
                if self.agents[k].needs_sync() {
                    return TargetStep::Focus(FocusStep::Read { target: String::new() });
                }
            },
            FocusEvent::Read { answer, .. } => {
                let known: Result<AgentStatus, Error> = self.agents[k].status(answer);
                assert(self.agents@ =~= before.agents@.update(k as int, self.agents@[k as int]));
                match known {
                    Err(error) => return TargetStep::Focus(FocusStep::Failed(error)),
                    Ok(_) => {},
                }
            },
            _ => {},
        }
        self.message = Some(preview_of(&self.agents[k].orchestrator));
        self.normalize_selection();
        TargetStep::Previewed
    }

    fn focus_process(&mut self, id: i64, event: FocusEvent<ProcessState>) -> (r: TargetStep)
        requires
            old(self).wf(),
            old(self).meets(TargetEvent::Process { id, process_event: event }),
        ensures
            final(self).wf(),
            old(self).focus_follows(
                TargetEvent::Process { id, process_event: event },
                *final(self),
                r,
            ),
    {
        let k: usize = find_process(&self.processes, id);
        if k >= self.processes.len() || self.processes[k].id != id {
            return TargetStep::Focus(FocusStep::Failed(Error::NotFound(id)));
        }
        let ghost before = *self;
        if !self.dry_run {
            let step: FocusStep = self.processes[k].focus(event);
            assert(self.processes@ =~= before.processes@.update(
                k as int,
                self.processes@[k as int],
            ));
            if matches!(step, FocusStep::Arrived(_)) {
                self.message = None;
                self.normalize_selection();
            }
            return TargetStep::Focus(step);
        }
        match event {
            FocusEvent::Asked(args) => {
                proof {
                    kinds_are_told_apart();
                }
                match validate_navigation_args(
                    self.processes[k].orchestrator.kind(),
                    args.as_slice(),
                ) {
                    Err(error) => return TargetStep::Focus(FocusStep::Failed(error)),
                    Ok(()) => {},
                }
                if self.processes[k].needs_sync() {
                    return TargetStep::Focus(FocusStep::Read { target: String::new() });
                }
            },
            FocusEvent::Read { answer, .. } => {
                let known: Result<ProcessState, Error> = self.processes[k].state(answer);
                assert(self.processes@ =~= before.processes@.update(
                    k as int,
                    self.processes@[k as int],
                ));
                match known {
                    Err(error) => return TargetStep::Focus(FocusStep::Failed(error)),
                    Ok(_) => {},
                }
            },
            _ => {},
        }
        self.message = Some(preview_of(&self.processes[k].orchestrator));
        self.normalize_selection();
        TargetStep::Previewed
    }
}

/// Whether a step is a failure with a plain error.
pub open spec fn target_fails(r: TargetStep, error: ErrorView) -> bool {
    r matches TargetStep::Focus(FocusStep::Failed(reason)) && reason@ == error
}

/// A dry run neither navigates nor writes.
pub proof fn dry_run_only_reads(
    panel: PanelData,
    event: TargetEvent,
    after: PanelData,
    r: TargetStep,
)
    requires
        panel.dry_run,
        panel.meets(event),
        panel.focus_follows(event, after, r),
    ensures
        r matches TargetStep::Focus(step) ==> step is Read || step is Failed,
{
}

/// Showing or hiding the history changes nothing about agents: neither what the
/// panel holds of them, nor which of them it lists.
pub proof fn history_is_about_commands_only(
    panel: PanelData,
    latest: Result<Option<i64>, Error>,
    after: PanelData,
    r: Result<(), Error>,
)
    requires
        panel.toggle_follows(latest, after, r),
    ensures
        after.agents == panel.agents,
        after.processes == panel.processes,
        agent_ids(agent_keys(after.agents@, false)).is_prefix_of(after.listing()),
        agent_ids(agent_keys(after.agents@, false)).is_prefix_of(panel.listing()),
{
    let agents = agent_ids(agent_keys(panel.agents@, false));
    assert(panel.listing().take(agents.len() as int) =~= agents);
    assert(after.listing().take(agents.len() as int) =~= agents);
}

/// Items that were found are held, and none that was held is lost.
pub proof fn lemma_merged_agents_hold(runs: Seq<AgentRun>, found: Seq<AgentRun>, id: i64)
    requires
        agents_ordered(runs),
        merged_agents(runs, found).1 is Ok,
        has_agent(runs, id) || exists|i: int| 0 <= i < found.len() && (#[trigger] found[i]).id == id,
    ensures
        agents_ordered(merged_agents(runs, found).0),
        has_agent(merged_agents(runs, found).0, id),
    decreases found.len(),
{
    if found.len() > 0 {
        let shorter = found.drop_last();
        let before = merged_agents(runs, shorter).0;
        let last = found.last();
        lemma_merged_agents_ordered(runs, shorter);
        if has_agent(runs, id) || exists|i: int|
            0 <= i < shorter.len() && (#[trigger] shorter[i]).id == id {
            lemma_merged_agents_hold(runs, shorter, id);
        } else {
            let i = choose|i: int| 0 <= i < found.len() && (#[trigger] found[i]).id == id;
            if i < shorter.len() {
                assert(shorter[i].id == id);
            }
            assert(last.id == id);
        }
        lemma_merged_agent_holds(before, last, id);
    }
}

/// Merging keeps the order of the numbers.
pub proof fn lemma_merged_agents_ordered(runs: Seq<AgentRun>, found: Seq<AgentRun>)
    requires
        agents_ordered(runs),
    ensures
        agents_ordered(merged_agents(runs, found).0),
    decreases found.len(),
{
    if found.len() > 0 {
        lemma_merged_agents_ordered(runs, found.drop_last());
        let before = merged_agents(runs, found.drop_last()).0;
        lemma_merged_agent_holds(before, found.last(), found.last().id);
    }
}

proof fn lemma_merged_agent_holds(runs: Seq<AgentRun>, run: AgentRun, id: i64)
    requires
        agents_ordered(runs),
    ensures
        agents_ordered(merged_agent(runs, run).0),
        has_agent(runs, id) || run.id == id ==> has_agent(merged_agent(runs, run).0, id),
{
    let slot = agent_slot(runs, run.id);
    let after = merged_agent(runs, run).0;
    lemma_agent_slot(runs, run.id);
    lemma_agent_slot(runs, id);
    lemma_merged_agent_ordered(runs, run);
    if has_agent(runs, run.id) {
        if has_agent(runs, id) || run.id == id {
            let k = agent_slot(runs, id);
            assert(after[k].id == id);
            lemma_agent_found(after, k);
        }
    } else {
        if run.id == id {
            assert(after[slot] == run);
            lemma_agent_found(after, slot);
        } else if has_agent(runs, id) {
            let k = agent_slot(runs, id);
            if k < slot {
                assert(after[k] == runs[k]);
                lemma_agent_found(after, k);
            } else {
                assert(after[k + 1] == runs[k]);
                lemma_agent_found(after, k + 1);
            }
        }
    }
}

/// Discovery misses nothing: once the agents of a range have been merged, the
/// panel holds each stored agent behind those that it had seen, up to where the
/// next range starts.
pub proof fn discovered_agents_are_held(
    t: Tables,
    panel: PanelData,
    through: i64,
    found: Seq<AgentRun>,
    id: i64,
)
    requires
        panel.wf(),
        panel.agent_discovered_through < through,
        answers_agents(
            t,
            AgentQuery::Range {
                after: panel.agent_discovered_through,
                through,
                limit: DISCOVERY_BATCH as i64,
            },
            found.map_values(|run: AgentRun| run.id),
        ),
        merged_agents(panel.agents@, found).1 is Ok,
        t.agents.contains_key(id),
        panel.agent_discovered_through < id <= agents_through(found, through),
    ensures
        has_agent(merged_agents(panel.agents@, found).0, id),
        panel.agent_discovered_through < agents_through(found, through) <= through,
{
    let ids = found.map_values(|run: AgentRun| run.id);
    agent_ranges_skip_nothing(
        t,
        panel.agent_discovered_through,
        through,
        DISCOVERY_BATCH as i64,
        ids,
        id,
    );
    let i = ids.index_of(id);
    assert(found[i].id == id);
    lemma_merged_agents_hold(panel.agents@, found, id);
}

/// Items that were found are held, and none that was held is lost.
pub proof fn lemma_merged_processes_hold(runs: Seq<ProcessRun>, found: Seq<ProcessRun>, id: i64)
    requires
        processes_ordered(runs),
        merged_processes(runs, found).1 is Ok,
        has_process(runs, id) || exists|i: int| 0 <= i < found.len() && (#[trigger] found[i]).id == id,
    ensures
        processes_ordered(merged_processes(runs, found).0),
        has_process(merged_processes(runs, found).0, id),
    decreases found.len(),
{
    if found.len() > 0 {
        let shorter = found.drop_last();
        let before = merged_processes(runs, shorter).0;
        let last = found.last();
        lemma_merged_processes_ordered(runs, shorter);
        if has_process(runs, id) || exists|i: int|
            0 <= i < shorter.len() && (#[trigger] shorter[i]).id == id {
            lemma_merged_processes_hold(runs, shorter, id);
        } else {
            let i = choose|i: int| 0 <= i < found.len() && (#[trigger] found[i]).id == id;
            if i < shorter.len() {
                assert(shorter[i].id == id);
            }
            assert(last.id == id);
        }
        lemma_merged_process_holds(before, last, id);
    }
}

/// Merging keeps the order of the numbers.
pub proof fn lemma_merged_processes_ordered(runs: Seq<ProcessRun>, found: Seq<ProcessRun>)
    requires
        processes_ordered(runs),
    ensures
        processes_ordered(merged_processes(runs, found).0),
    decreases found.len(),
{
    if found.len() > 0 {
        lemma_merged_processes_ordered(runs, found.drop_last());
        let before = merged_processes(runs, found.drop_last()).0;
        lemma_merged_process_holds(before, found.last(), found.last().id);
    }
}

proof fn lemma_merged_process_holds(runs: Seq<ProcessRun>, run: ProcessRun, id: i64)
    requires
        processes_ordered(runs),
    ensures
        processes_ordered(merged_process(runs, run).0),
        has_process(runs, id) || run.id == id ==> has_process(merged_process(runs, run).0, id),
{
    let slot = process_slot(runs, run.id);
    let after = merged_process(runs, run).0;
    lemma_process_slot(runs, run.id);
    lemma_process_slot(runs, id);
    lemma_merged_process_ordered(runs, run);
    if has_process(runs, run.id) {
        if has_process(runs, id) || run.id == id {
            let k = process_slot(runs, id);
            assert(after[k].id == id);
            lemma_process_found(after, k);
        }
    } else {
        if run.id == id {
            assert(after[slot] == run);
            lemma_process_found(after, slot);
        } else if has_process(runs, id) {
            let k = process_slot(runs, id);
            if k < slot {
                assert(after[k] == runs[k]);
                lemma_process_found(after, k);
            } else {
                assert(after[k + 1] == runs[k]);
                lemma_process_found(after, k + 1);
            }
        }
    }
}

/// Discovery misses nothing: once the commands of a range have been merged, the
/// panel holds each stored command behind those that it had seen, up to where the
/// next range starts.
pub proof fn discovered_processes_are_held(
    t: Tables,
    panel: PanelData,
    through: i64,
    found: Seq<ProcessRun>,
    id: i64,
)
    requires
        panel.wf(),
        panel.discovered_through < through,
        answers_processes(
            t,
            ProcessQuery::Range {
                after: panel.discovered_through,
                through,
                limit: DISCOVERY_BATCH as i64,
            },
            found.map_values(|run: ProcessRun| run.id),
        ),
        merged_processes(panel.processes@, found).1 is Ok,
        t.processes.contains_key(id),
        panel.discovered_through < id <= processes_through(found, through),
    ensures
        has_process(merged_processes(panel.processes@, found).0, id),
        panel.discovered_through < processes_through(found, through) <= through,
{
    let ids = found.map_values(|run: ProcessRun| run.id);
    process_ranges_skip_nothing(
        t,
        panel.discovered_through,
        through,
        DISCOVERY_BATCH as i64,
        ids,
        id,
    );
    let i = ids.index_of(id);
    assert(found[i].id == id);
    lemma_merged_processes_hold(panel.processes@, found, id);
}

/// A loaded panel holds each agent that was not killed when the agents were
/// listed.
pub proof fn loaded_agents_are_held(t: Tables, found: Seq<AgentRun>, id: i64)
    requires
        answers_agents(t, AgentQuery::Unkilled, found.map_values(|run: AgentRun| run.id)),
        merged_agents(Seq::empty(), found).1 is Ok,
        t.agents.contains_key(id),
        t.agents[id].status != 5,
    ensures
        has_agent(merged_agents(Seq::empty(), found).0, id),
{
    let ids = found.map_values(|run: AgentRun| run.id);
    assert(selects_agent(AgentQuery::Unkilled, id, t.agents[id]));
    let i = ids.index_of(id);
    assert(found[i].id == id);
    lemma_merged_agents_hold(Seq::empty(), found, id);
}

/// A loaded panel holds each command that was not acknowledged when the commands
/// were listed.
pub proof fn loaded_processes_are_held(t: Tables, found: Seq<ProcessRun>, id: i64)
    requires
        answers_processes(t, ProcessQuery::Unacked, found.map_values(|run: ProcessRun| run.id)),
        merged_processes(Seq::empty(), found).1 is Ok,
        t.processes.contains_key(id),
        t.processes[id].acked == 0,
    ensures
        has_process(merged_processes(Seq::empty(), found).0, id),
{
    let ids = found.map_values(|run: ProcessRun| run.id);
    assert(selects_process(ProcessQuery::Unacked, id, t.processes[id]));
    let i = ids.index_of(id);
    assert(found[i].id == id);
    lemma_merged_processes_hold(Seq::empty(), found, id);
}

/// Whether a command is held, and known at least as far along as another
/// observation of it, which it does not contradict.
pub open spec fn knows(runs: Seq<ProcessRun>, seen: ProcessRun) -> bool {
    let held = runs[process_slot(runs, seen.id)];
    has_process(runs, seen.id) && !held.state.conflicts(seen.state) && held.state.later(seen.state)
        == held.state
}

proof fn lemma_merged_process_known(runs: Seq<ProcessRun>, run: ProcessRun, seen: ProcessRun)
    requires
        processes_ordered(runs),
        merged_process(runs, run).1 is Ok,
        knows(runs, seen) || seen == run,
    ensures
        knows(merged_process(runs, run).0, seen),
{
    let after = merged_process(runs, run).0;
    let slot = process_slot(runs, run.id);
    lemma_process_slot(runs, run.id);
    lemma_process_slot(runs, seen.id);
    lemma_merged_process_ordered(runs, run);
    let k = process_slot(runs, seen.id);
    if has_process(runs, run.id) {
        assert(after[k].id == seen.id);
        lemma_process_found(after, k);
    } else if seen == run {
        assert(after[slot] == run);
        lemma_process_found(after, slot);
    } else if k < slot {
        assert(after[k] == runs[k]);
        lemma_process_found(after, k);
    } else {
        assert(after[k + 1] == runs[k]);
        lemma_process_found(after, k + 1);
    }
}

/// Once commands have been merged, each is known at least as far along as it was
/// found.
pub proof fn merged_processes_keep_the_later_state(
    runs: Seq<ProcessRun>,
    found: Seq<ProcessRun>,
    i: int,
)
    requires
        processes_ordered(runs),
        merged_processes(runs, found).1 is Ok,
        0 <= i < found.len(),
    ensures
        knows(merged_processes(runs, found).0, found[i]),
    decreases found.len(),
{
    let shorter = found.drop_last();
    let before = merged_processes(runs, shorter).0;
    lemma_merged_processes_ordered(runs, shorter);
    if i < shorter.len() {
        merged_processes_keep_the_later_state(runs, shorter, i);
    }
    lemma_merged_process_known(before, found.last(), found[i]);
}

/// Merging the same commands again changes nothing.
pub proof fn merging_processes_is_idempotent(runs: Seq<ProcessRun>, found: Seq<ProcessRun>)
    requires
        processes_ordered(runs),
        merged_processes(runs, found).1 is Ok,
    ensures
        merged_processes(merged_processes(runs, found).0, found) == merged_processes(runs, found),
{
    let after = merged_processes(runs, found).0;
    assert forall|i: int| 0 <= i < found.len() implies knows(after, #[trigger] found[i]) by {
        merged_processes_keep_the_later_state(runs, found, i);
    }
    lemma_merged_processes_ordered(runs, found);
    lemma_known_processes_merge(after, found);
}

proof fn lemma_known_processes_merge(runs: Seq<ProcessRun>, found: Seq<ProcessRun>)
    requires
        processes_ordered(runs),
        forall|i: int| 0 <= i < found.len() ==> knows(runs, #[trigger] found[i]),
    ensures
        merged_processes(runs, found) == (runs, Ok::<(), ErrorView>(())),
    decreases found.len(),
{
    if found.len() > 0 {
        let shorter = found.drop_last();
        assert forall|i: int| 0 <= i < shorter.len() implies knows(
            runs,
            #[trigger] shorter[i],
        ) by {
            assert(shorter[i] == found[i]);
        }
        lemma_known_processes_merge(runs, shorter);
        let last = found.last();
        assert(knows(runs, found[found.len() - 1]));
        let slot = process_slot(runs, last.id);
        lemma_process_slot(runs, last.id);
        assert(runs.update(slot, runs[slot].observed(last.state)) =~= runs);
    }
}

} // verus!
