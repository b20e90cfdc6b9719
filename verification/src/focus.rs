//! Navigating back to a tracked item, and what becomes of the item then.

use vstd::prelude::*;

use crate::agent::{agent_taken, AgentRun, AgentStatus};
use crate::error::Error;
use crate::orchestrator::{
    first_step, next_step, unavailable, NavigationStage, NavigationStep, Orchestrator,
};
use crate::process::{synced, taken, ProcessRun, ProcessState};
use crate::storage::Job;

verus! {

/// What happens while an item is being focused. `S` is what storage reports of
/// the item.
pub enum FocusEvent<S> {
    /// The user asks for it, with navigation arguments.
    Asked(Vec<String>),
    /// Tmux answers.
    Tmux { stage: NavigationStage, output: Result<String, String> },
    /// The target was reached, and storage reports what is stored.
    Read { target: String, answer: Result<S, Error> },
    /// The target was reached, and storage reports what was written.
    Written { target: String, answer: Result<S, Error> },
}

/// What to do next.
pub enum FocusStep {
    /// Run tmux with these arguments.
    Tmux { stage: NavigationStage, args: Vec<String> },
    /// Read what is stored of the item.
    Read { target: String },
    /// Carry out a job.
    Write { target: String, job: Job },
    /// The target was reached, and nothing is left to do.
    Arrived(String),
    Failed(Error),
}

/// Whether a step is the one that an event leads to on the way to a host.
pub open spec fn navigates<S>(
    host: Orchestrator,
    event: FocusEvent<S>,
    step: NavigationStep,
) -> bool {
    match (host, event) {
        (Orchestrator::Shell(shell), _) => unavailable(shell.cwd@, step),
        (Orchestrator::Tmux(_), FocusEvent::Asked(args)) => first_step(args@, step),
        (Orchestrator::Tmux(tmux), FocusEvent::Tmux { stage, output }) => next_step(
            tmux.pane@,
            stage,
            output,
            step,
        ),
        _ => false,
    }
}

/// Whether a step of the navigation leads to a step of the focus; `arrival` is
/// the one behind an arrival.
pub open spec fn leads_to(step: NavigationStep, r: FocusStep, arrival: FocusStep) -> bool {
    match step {
        NavigationStep::Run { stage, args } => r == (FocusStep::Tmux { stage, args }),
        NavigationStep::Failed(error) => r == FocusStep::Failed(Error::Navigation(error)),
        NavigationStep::Arrived(_) => r == arrival,
    }
}

impl ProcessRun {
    /// What follows an arrival: a command that was acknowledged before is
    /// acknowledged again, and of any other the state is read first.
    pub open spec fn arrival(self, target: String) -> FocusStep {
        if self.pending() {
            FocusStep::Read { target }
        } else {
            FocusStep::Write { target, job: Job::AcknowledgeProcess { id: self.id } }
        }
    }

    /// What focusing a command does on an event. It is acknowledged only once the
    /// target was reached, and only if it does not run any more.
    pub open spec fn focused(
        self,
        event: FocusEvent<ProcessState>,
        after: ProcessRun,
        r: FocusStep,
    ) -> bool {
        match event {
            FocusEvent::Asked(_) | FocusEvent::Tmux { .. } => after == self && exists|
                step: NavigationStep,
            | #[trigger]
                navigates(self.orchestrator, event, step) && leads_to(
                    step,
                    r,
                    self.arrival(step->Arrived_0),
                ),
            FocusEvent::Read { target, answer } => match r {
                FocusStep::Failed(error) => synced(self, answer, after, Err(error)),
                _ => synced(self, answer, after, Ok(())) && r == if after.state is Running {
                    FocusStep::Arrived(target)
                } else {
                    FocusStep::Write { target, job: Job::AcknowledgeProcess { id: self.id } }
                },
            },
            FocusEvent::Written { target, answer } => match r {
                FocusStep::Failed(error) => taken(self, answer, after, Err(error)),
                _ => taken(self, answer, after, Ok(())) && r == FocusStep::Arrived(target),
            },
        }
    }

    /// Focuses the command: what to do next, on an event.
    pub fn focus(&mut self, event: FocusEvent<ProcessState>) -> (r: FocusStep)
        ensures
            old(self).focused(event, *final(self), r),
    {
        match event {
            FocusEvent::Asked(args) => {
                let step: NavigationStep = self.orchestrator.navigate(&args);
                let ghost taken_step = step;
                assert(navigates(self.orchestrator, event, taken_step));
                self.follow(step)
            },
            FocusEvent::Tmux { stage, output } => {
                let step: NavigationStep = self.orchestrator.resume(stage, output);
                let ghost taken_step = step;
                assert(navigates(self.orchestrator, event, taken_step));
                self.follow(step)
            },
            FocusEvent::Read { target, answer } => match self.state(answer) {
                Err(error) => FocusStep::Failed(error),
                Ok(ProcessState::Running) => FocusStep::Arrived(target),
                Ok(_) => FocusStep::Write {
                    target,
                    job: self.storage.acknowledge_process(self.id),
                },
            },
            FocusEvent::Written { target, answer } => match self.acknowledge(answer) {
                Err(error) => FocusStep::Failed(error),
                Ok(()) => FocusStep::Arrived(target),
            },
        }
    }

    fn follow(&self, step: NavigationStep) -> (r: FocusStep)
        ensures
            leads_to(step, r, self.arrival(step->Arrived_0)),
    {
        match step {
            NavigationStep::Run { stage, args } => FocusStep::Tmux { stage, args },
            NavigationStep::Failed(error) => FocusStep::Failed(Error::Navigation(error)),
            NavigationStep::Arrived(target) => {
                if self.needs_sync() {
                    FocusStep::Read { target }
                } else {
                    FocusStep::Write { target, job: self.storage.acknowledge_process(self.id) }
                }
            },
        }
    }
}

impl AgentRun {
    /// What focusing an agent does on an event. It is acknowledged only once the
    /// target was reached, and only if its stored status is done.
    pub open spec fn focused(
        self,
        event: FocusEvent<(AgentStatus, bool)>,
        after: AgentRun,
        r: FocusStep,
    ) -> bool {
        match event {
            FocusEvent::Asked(_) | FocusEvent::Tmux { .. } => after == self && exists|
                step: NavigationStep,
            | #[trigger]
                navigates(self.orchestrator, event, step) && leads_to(
                    step,
                    r,
                    FocusStep::Write {
                        target: step->Arrived_0,
                        job: Job::AcknowledgeAgentIfDone { id: self.id },
                    },
                ),
            FocusEvent::Read { target, .. } => after == self && r == (FocusStep::Write {
                target,
                job: Job::AcknowledgeAgentIfDone { id: self.id },
            }),
            FocusEvent::Written { target, answer } => match r {
                FocusStep::Failed(error) => agent_taken(self, answer, after, Err(error)),
                _ => agent_taken(self, answer, after, Ok(())) && r == FocusStep::Arrived(target),
            },
        }
    }

    /// Focuses the agent: what to do next, on an event.
    pub fn focus(&mut self, event: FocusEvent<(AgentStatus, bool)>) -> (r: FocusStep)
        ensures
            old(self).focused(event, *final(self), r),
    {
        match event {
            FocusEvent::Asked(args) => {
                let step: NavigationStep = self.orchestrator.navigate(&args);
                let ghost taken_step = step;
                assert(navigates(self.orchestrator, event, taken_step));
                self.follow(step)
            },
            FocusEvent::Tmux { stage, output } => {
                let step: NavigationStep = self.orchestrator.resume(stage, output);
                let ghost taken_step = step;
                assert(navigates(self.orchestrator, event, taken_step));
                self.follow(step)
            },
            FocusEvent::Read { target, .. } => FocusStep::Write {
                target,
                job: self.storage.acknowledge_agent_if_done(self.id),
            },
            FocusEvent::Written { target, answer } => match self.acknowledge(answer) {
                Err(error) => FocusStep::Failed(error),
                Ok(()) => FocusStep::Arrived(target),
            },
        }
    }

    fn follow(&self, step: NavigationStep) -> (r: FocusStep)
        ensures
            leads_to(
                step,
                r,
                FocusStep::Write {
                    target: step->Arrived_0,
                    job: Job::AcknowledgeAgentIfDone { id: self.id },
                },
            ),
    {
        match step {
            NavigationStep::Run { stage, args } => FocusStep::Tmux { stage, args },
            NavigationStep::Failed(error) => FocusStep::Failed(Error::Navigation(error)),
            NavigationStep::Arrived(target) => FocusStep::Write {
                target,
                job: self.storage.acknowledge_agent_if_done(self.id),
            },
        }
    }
}

/// Only an arrival leads to an acknowledgment: a navigation that is under way or
/// has failed leaves a command as it is, on record and in storage.
pub proof fn only_arrival_acknowledges_a_process(
    run: ProcessRun,
    event: FocusEvent<ProcessState>,
    after: ProcessRun,
    r: FocusStep,
)
    requires
        event is Asked || event is Tmux,
        run.focused(event, after, r),
    ensures
        after == run,
        r is Write || r is Read ==> exists|step: NavigationStep| #[trigger]
            navigates(run.orchestrator, event, step) && step is Arrived,
        run.orchestrator is Shell ==> r matches FocusStep::Failed(Error::Navigation(_)),
{
}

/// Only an arrival leads to an acknowledgment: a navigation that is under way or
/// has failed leaves an agent as it is, on record and in storage.
pub proof fn only_arrival_acknowledges_an_agent(
    run: AgentRun,
    event: FocusEvent<(AgentStatus, bool)>,
    after: AgentRun,
    r: FocusStep,
)
    requires
        event is Asked || event is Tmux,
        run.focused(event, after, r),
    ensures
        after == run,
        r is Write || r is Read ==> exists|step: NavigationStep| #[trigger]
            navigates(run.orchestrator, event, step) && step is Arrived,
        run.orchestrator is Shell ==> r matches FocusStep::Failed(Error::Navigation(_)),
{
}

} // verus!
