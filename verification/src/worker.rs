//! The part of the panel that looks after its data: when it does what, and what
//! it tells the terminal.

use vstd::prelude::*;

use crate::error::Error;
use crate::focus::{FocusEvent, FocusStep};
use crate::panel::{PanelData, PanelSnapshot, TrackedId};
use crate::refresh::{TargetEvent, TargetStep};
use crate::storage::Job;

verus! {

/// How long data is shown before it is read again, in nanoseconds.
pub const REFRESH: u128 = 5_000_000_000;

/// How long the terminal waits before it is drawn again, in nanoseconds.
pub const REDRAW: u128 = 100_000_000;

/// How long lies between two parts of the history, in nanoseconds.
pub const HISTORY_STEP: u128 = 25_000_000;

/// What the terminal asks for.
#[derive(Debug)]
pub enum PanelRequest {
    MoveSelection(isize),
    Resize(usize),
    ToggleHistory,
    Focus { target: TrackedId, args: Vec<String> },
    Delete(TrackedId),
    Shutdown,
}

/// What the terminal is told.
#[derive(Debug)]
pub enum PanelEvent {
    Updated(PanelSnapshot),
    Focused,
    FocusFailed { target: TrackedId, message: String },
    Failed(String),
}

/// What is to be done for a request.
pub enum Work {
    /// Tell the terminal.
    Tell(Vec<PanelEvent>),
    /// Ask for the largest number of a command, and go on with `toggled`.
    LatestProcess,
    /// Take a step on the way to an item, and go on with `focus`.
    Focus { target: TrackedId, step: FocusStep },
    /// Carry out a job, and go on with `deleted`.
    Delete { target: TrackedId, job: Job },
    Stop,
}

/// The data of the panel, and when it is looked after next. Points in time are
/// counted in nanoseconds.
pub struct Worker {
    pub data: PanelData,
    pub next_refresh: u128,
    pub next_history: u128,
    pub history_retry: u128,
}

/// The item that an event is about.
pub open spec fn target_of(event: TargetEvent) -> TrackedId {
    match event {
        TargetEvent::Agent { id, .. } => TrackedId::Agent(id),
        TargetEvent::Process { id, .. } => TrackedId::Process(id),
    }
}

/// Asking for the focus of an item.
pub open spec fn asking(target: TrackedId, args: Vec<String>) -> TargetEvent {
    match target {
        TrackedId::Agent(id) => TargetEvent::Agent { id, agent_event: FocusEvent::Asked(args) },
        TrackedId::Process(id) => TargetEvent::Process {
            id,
            process_event: FocusEvent::Asked(args),
        },
    }
}

impl Worker {
    /// Whether the data is well formed.
    pub open spec fn wf(self) -> bool {
        self.data.wf()
    }

    /// Whether the history is being shown and not complete.
    pub open spec fn history_pending(self) -> bool {
        self.data.show_history && !self.data.history_loaded
    }

    /// Whether a part of the history is due.
    pub open spec fn history_at(self, now: u128) -> bool {
        self.history_pending() && now >= self.next_history && now >= self.history_retry
    }

    /// Starts looking after data that was just loaded.
    pub fn start(data: PanelData, now: u128) -> (r: Worker)
        requires
            now + REFRESH <= u128::MAX,
        ensures
            r == (Worker {
                data,
                next_refresh: (now + REFRESH) as u128,
                next_history: now,
                history_retry: now,
            }),
    {
        Worker { data, next_refresh: now + REFRESH, next_history: now, history_retry: now }
    }

    /// How long to wait for a request: not at all where a part of the history is
    /// due, else until data is read again, and no longer than the terminal waits.
    pub fn wait(&self, now: u128) -> (r: u128)
        ensures
            r == if self.history_at(now) || self.next_refresh <= now {
                0
            } else if self.next_refresh - now < REDRAW {
                self.next_refresh - now
            } else {
                REDRAW as int
            },
    {
        if self.history_due(now) || self.next_refresh <= now {
            0
        } else if self.next_refresh - now < REDRAW {
            self.next_refresh - now
        } else {
            REDRAW
        }
    }

    /// Whether a part of the history is due.
    pub fn history_due(&self, now: u128) -> (r: bool)
        ensures
            r == self.history_at(now),
    {
        self.data.show_history && !self.data.history_loaded && now >= self.next_history && now
            >= self.history_retry
    }

    /// Whether data is to be read again; if so, the next time is set.
    pub fn refresh_due(&mut self, now: u128) -> (r: bool)
        requires
            now + REFRESH <= u128::MAX,
        ensures
            r == (now >= old(self).next_refresh),
            *final(self) == if r {
                Worker { next_refresh: (now + REFRESH) as u128, ..*old(self) }
            } else {
                *old(self)
            },
    {
        if now >= self.next_refresh {
            self.next_refresh = now + REFRESH;
            true
        } else {
            false
        }
    }

    /// The worker whose panel shows an error.
    pub open spec fn troubled(self, error: Error, after: Worker) -> bool {
        &&& after.data.message matches Some(text) && text@ == error.wording()
        &&& after == (Worker {
            data: PanelData { message: after.data.message, ..self.data },
            ..self
        })
    }

    /// What the terminal is told of the outcome of a request; `focus` is the item
    /// that was to be focused, where one was.
    pub open spec fn answers(
        self,
        focus: Option<TrackedId>,
        result: Result<bool, Error>,
        after: Worker,
        r: Seq<PanelEvent>,
    ) -> bool {
        match result {
            Ok(focused) => {
                &&& after == self
                &&& r.len() == if focused {
                    2int
                } else {
                    1
                }
                &&& r[0] matches PanelEvent::Updated(picture) && self.data.pictured(picture)
                &&& focused ==> r[1] is Focused
            },
            Err(error) => {
                &&& self.troubled(error, after)
                &&& r.len() == 1
                &&& match (focus, error) {
                    (Some(item), Error::Navigation(_)) => r[0] matches PanelEvent::FocusFailed {
                        target,
                        message,
                    } && target == item && message@ == error.wording(),
                    _ => r[0] matches PanelEvent::Failed(message) && message@ == error.wording(),
                }
            },
        }
    }

    fn answer(&mut self, focus: Option<TrackedId>, result: Result<bool, Error>) -> (r: Vec<
        PanelEvent,
    >)
        requires
            old(self).wf(),
        ensures
            final(self).wf(),
            old(self).answers(focus, result, *final(self), r@),
    {
        match result {
            Ok(focused) => {
                let mut events: Vec<PanelEvent> = Vec::new();
                events.push(PanelEvent::Updated(self.data.snapshot()));
                if focused {
                    events.push(PanelEvent::Focused);
                }
                events
            },
            Err(error) => {
                let message: String = error.message();
                self.data.message = Some(message.clone());
                let event: PanelEvent = match (focus, &error) {
                    (Some(target), Error::Navigation(_)) => PanelEvent::FocusFailed {
                        target,
                        message,
                    },
                    _ => PanelEvent::Failed(message),
                };
                let mut events: Vec<PanelEvent> = Vec::new();
                events.push(event);
                events
            },
        }
    }

    /// What is told once data has been changed without a chance to fail.
    pub open spec fn tells(self, after: Worker, r: Work) -> bool {
        r matches Work::Tell(events) && self.answers(None, Ok(false), after, events@)
    }

    /// What a step of the focus leads to: it is over with a preview, an arrival or
    /// a failure, and goes on otherwise.
    pub open spec fn focus_leads(
        self,
        target: TrackedId,
        step: TargetStep,
        after: Worker,
        r: Work,
    ) -> bool {
        match step {
            TargetStep::Previewed => r matches Work::Tell(events) && self.answers(
                Some(target),
                Ok(false),
                after,
                events@,
            ),
            TargetStep::Focus(FocusStep::Arrived(_)) => r matches Work::Tell(events)
                && self.answers(Some(target), Ok(true), after, events@),
            TargetStep::Focus(FocusStep::Failed(error)) => r matches Work::Tell(events)
                && self.answers(Some(target), Err(error), after, events@),
            TargetStep::Focus(step) => after == self && r == (Work::Focus { target, step }),
        }
    }

    /// What an event of a focus does.
    pub open spec fn focus_does(self, event: TargetEvent, after: Worker, r: Work) -> bool {
        exists|data: PanelData, step: TargetStep| #[trigger]
            self.data.focus_follows(event, data, step) && (Worker { data, ..self }).focus_leads(
                target_of(event),
                step,
                after,
                r,
            )
    }

    /// What a request does, and what is to be done for it.
    pub open spec fn accepts(self, request: PanelRequest, after: Worker, r: Work) -> bool {
        match request {
            PanelRequest::MoveSelection(delta) => (Worker {
                data: self.data.moved(delta as int),
                ..self
            }).tells(after, r),
            PanelRequest::Resize(rows) => (Worker {
                data: (PanelData { viewport_len: rows, ..self.data }).normalized(),
                ..self
            }).tells(after, r),
            PanelRequest::ToggleHistory => if !self.data.show_history
                && self.data.history_through is None {
                after == self && r is LatestProcess
            } else {
                (Worker {
                    data: (PanelData {
                        show_history: !self.data.show_history,
                        message: None,
                        ..self.data
                    }).normalized(),
                    ..self
                }).tells(after, r)
            },
            PanelRequest::Focus { target, args } => self.focus_does(asking(target, args), after, r),
            PanelRequest::Delete(target) => if self.data.dry_run {
                r matches Work::Tell(events) && self.answers(
                    None,
                    Err(Error::ReadOnly),
                    after,
                    events@,
                )
            } else {
                after == self && r == (Work::Delete {
                    target,
                    job: match target {
                        TrackedId::Agent(id) => Job::DeleteAgent { id },
                        TrackedId::Process(id) => Job::DeleteProcess { id },
                    },
                })
            },
            PanelRequest::Shutdown => after == self && r is Stop,
        }
    }

    /// Takes a request of the terminal.
    pub fn accept(&mut self, request: PanelRequest) -> (r: Work)
        requires
            old(self).wf(),
        ensures
            final(self).wf(),
            old(self).accepts(request, *final(self), r),
    {
        match request {
            PanelRequest::Shutdown => Work::Stop,
            PanelRequest::MoveSelection(delta) => {
                self.data.move_selection(delta);
                Work::Tell(self.answer(None, Ok(false)))
            },
            PanelRequest::Resize(rows) => {
                self.data.resize(rows);
                Work::Tell(self.answer(None, Ok(false)))
            },
            PanelRequest::ToggleHistory => {
                if self.data.wants_history_end() {
                    Work::LatestProcess
                } else {
                    let toggled: Result<(), Error> = self.data.toggle_history(Ok(None));
                    Work::Tell(self.answer(None, unfocused(toggled)))
                }
            },
            PanelRequest::Focus { target, args } => {
                let event: TargetEvent = match target {
                    TrackedId::Agent(id) => TargetEvent::Agent {
                        id,
                        agent_event: FocusEvent::Asked(args),
                    },
                    TrackedId::Process(id) => TargetEvent::Process {
                        id,
                        process_event: FocusEvent::Asked(args),
                    },
                };
                self.focus(event)
            },
            PanelRequest::Delete(target) => match self.data.delete_job(target) {
                Err(error) => Work::Tell(self.answer(None, Err(error))),
                Ok(job) => Work::Delete { target, job },
            },
        }
    }

    /// Goes on with the focus of an item.
    pub fn focus(&mut self, event: TargetEvent) -> (r: Work)
        requires
            old(self).wf(),
            old(self).data.meets(event),
        ensures
            final(self).wf(),
            old(self).focus_does(event, *final(self), r),
    {
        let target: TrackedId = match &event {
            TargetEvent::Agent { id, .. } => TrackedId::Agent(*id),
            TargetEvent::Process { id, .. } => TrackedId::Process(*id),
        };
        let ghost before = *self;
        let step: TargetStep = self.data.focus(event);
        let ghost data = self.data;
        let ghost taken = step;
        let work: Work = match step {
            TargetStep::Previewed => Work::Tell(self.answer(Some(target), Ok(false))),
            TargetStep::Focus(step) => match step {
                FocusStep::Arrived(_) => Work::Tell(self.answer(Some(target), Ok(true))),
                FocusStep::Failed(error) => Work::Tell(self.answer(Some(target), Err(error))),
                _ => Work::Focus { target, step },
            },
        };
        assert(before.data.focus_follows(event, data, taken));
        work
    }

    /// Goes on with the history, once its end is known.
    pub fn toggled(&mut self, latest: Result<Option<i64>, Error>) -> (r: Vec<PanelEvent>)
        requires
            old(self).wf(),
        ensures
            final(self).wf(),
            exists|data: PanelData, done: Result<(), Error>| #[trigger]
                old(self).data.toggle_follows(latest, data, done) && (Worker {
                    data,
                    ..*old(self)
                }).answers(None, without_focus(done), *final(self), r@),
    {
        let ghost before = *self;
        let done: Result<(), Error> = self.data.toggle_history(latest);
        let ghost data = self.data;
        let ghost known = done;
        assert(before.data.toggle_follows(latest, data, known));
        self.answer(None, unfocused(done))
    }

    /// Goes on with the removal of an item, once storage has answered.
    pub fn deleted(&mut self, target: TrackedId, removed: Result<(), Error>) -> (r: Vec<PanelEvent>)
        requires
            old(self).wf(),
        ensures
            final(self).wf(),
            exists|data: PanelData, done: Result<(), Error>| #[trigger]
                old(self).data.delete_follows(target, removed, data, done) && (Worker {
                    data,
                    ..*old(self)
                }).answers(None, without_focus(done), *final(self), r@),
    {
        let ghost before = *self;
        let done: Result<(), Error> = self.data.delete(target, removed);
        let ghost data = self.data;
        let ghost known = done;
        assert(before.data.delete_follows(target, removed, data, known));
        self.answer(None, unfocused(done))
    }

    /// What the terminal is told of data that was read again, or could not be.
    pub open spec fn reports(self, result: Result<(), Error>, after: Worker, r: PanelEvent) -> bool {
        match result {
            Ok(_) => {
                &&& after == (Worker {
                    data: PanelData { message: None, ..self.data },
                    ..self
                })
                &&& r matches PanelEvent::Updated(picture) && after.data.pictured(picture)
            },
            Err(error) => {
                &&& self.troubled(error, after)
                &&& r matches PanelEvent::Failed(message) && message@ == error.wording()
            },
        }
    }

    /// Tells of data that was read again, or could not be.
    pub fn refreshed(&mut self, result: Result<(), Error>) -> (r: PanelEvent)
        requires
            old(self).wf(),
        ensures
            final(self).wf(),
            old(self).reports(result, *final(self), r),
    {
        match result {
            Ok(()) => {
                self.data.message = None;
                PanelEvent::Updated(self.data.snapshot())
            },
            Err(error) => {
                let message: String = error.message();
                self.data.message = Some(message.clone());
                PanelEvent::Failed(message)
            },
        }
    }

    /// Tells of a part of the history that was read, or could not be. The next
    /// part follows shortly, or after a failure as late as other data.
    pub fn history_read(&mut self, now: u128, result: Result<(), Error>) -> (r: PanelEvent)
        requires
            old(self).wf(),
            now + REFRESH <= u128::MAX,
        ensures
            final(self).wf(),
            (Worker {
                next_history: (now + HISTORY_STEP) as u128,
                history_retry: if result is Ok {
                    now
                } else {
                    (now + REFRESH) as u128
                },
                ..*old(self)
            }).reports(result, *final(self), r),
    {
        self.history_retry = if result.is_ok() {
            now
        } else {
            now + REFRESH
        };
        self.next_history = now + HISTORY_STEP;
        self.refreshed(result)
    }
}

/// The outcome of a request that was not about focus.
pub open spec fn without_focus(done: Result<(), Error>) -> Result<bool, Error> {
    match done {
        Ok(_) => Ok(false),
        Err(error) => Err(error),
    }
}

fn unfocused(done: Result<(), Error>) -> (r: Result<bool, Error>)
    ensures
        r == without_focus(done),
{
    match done {
        Ok(()) => Ok(false),
        Err(error) => Err(error),
    }
}

/// Whether old items are collected in the background; nothing is in a dry run.
pub fn start_background_maintenance(dry_run: bool) -> (r: bool)
    ensures
        r == !dry_run,
{
    !dry_run
}

} // verus!
