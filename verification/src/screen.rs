//! The part of the panel that faces the user: what keys do, and what is drawn.

use vstd::prelude::*;
use vstd::string::*;

use crate::agent::{status_text, AgentSnapshot};
use crate::error::Error;
use crate::panel::{PanelSnapshot, TrackedId, TrackedSnapshot};
use crate::process::{outcome_text, ProcessSnapshot, ProcessState};
use crate::text::{decimal, natural, numeral, signed, texts};
use crate::time::{clock_text, format_elapsed, Timestamp, NANOS_PER_SEC};
use crate::worker::{PanelEvent, PanelRequest};

verus! {

/// An item that could not be navigated to, and might be removed.
#[derive(Debug)]
pub struct DeletePrompt {
    pub target: TrackedId,
    pub error: String,
}

/// What the terminal shows.
#[derive(Debug)]
pub struct Panel {
    pub snapshot: PanelSnapshot,
    /// The selected row of the table of agents.
    pub agent_row: Option<usize>,
    /// The selected row of the table of commands.
    pub process_row: Option<usize>,
    pub delete_prompt: Option<DeletePrompt>,
}

/// A key, as far as the panel knows it.
#[derive(Clone, Copy, Debug, PartialEq, Eq, Structural)]
pub enum KeyPress {
    Char(char),
    Up,
    Down,
    Enter,
    Esc,
    Other,
}

/// What a key leads to.
#[derive(Debug)]
pub enum Reaction {
    Quit,
    Send(PanelRequest),
    Nothing,
}

/// The agents among the rows.
pub open spec fn agent_rows(rows: Seq<TrackedSnapshot>) -> Seq<AgentSnapshot>
    decreases rows.len(),
{
    if rows.len() == 0 {
        Seq::empty()
    } else {
        match rows.last() {
            TrackedSnapshot::Agent(agent) => agent_rows(rows.drop_last()).push(agent),
            TrackedSnapshot::Process(_) => agent_rows(rows.drop_last()),
        }
    }
}

/// The commands among the rows.
pub open spec fn process_rows(rows: Seq<TrackedSnapshot>) -> Seq<ProcessSnapshot>
    decreases rows.len(),
{
    if rows.len() == 0 {
        Seq::empty()
    } else {
        match rows.last() {
            TrackedSnapshot::Process(process) => process_rows(rows.drop_last()).push(process),
            TrackedSnapshot::Agent(_) => process_rows(rows.drop_last()),
        }
    }
}

/// Whether a row is the first of the selected agent in the table of agents.
pub open spec fn marks_agent(
    rows: Seq<TrackedSnapshot>,
    selected: Option<TrackedId>,
    r: Option<usize>,
) -> bool {
    let agents = agent_rows(rows);
    match r {
        Some(k) => {
            &&& k < agents.len()
            &&& selected == Some(TrackedId::Agent(agents[k as int].id))
            &&& forall|j: int|
                0 <= j < k ==> selected != Some(TrackedId::Agent((#[trigger] agents[j]).id))
        },
        None => forall|j: int|
            0 <= j < agents.len() ==> selected != Some(TrackedId::Agent((#[trigger] agents[j]).id)),
    }
}

/// Whether a row is the first of the selected command in the table of commands.
pub open spec fn marks_process(
    rows: Seq<TrackedSnapshot>,
    selected: Option<TrackedId>,
    r: Option<usize>,
) -> bool {
    let processes = process_rows(rows);
    match r {
        Some(k) => {
            &&& k < processes.len()
            &&& selected == Some(TrackedId::Process(processes[k as int].id))
            &&& forall|j: int|
                0 <= j < k ==> selected != Some(TrackedId::Process((#[trigger] processes[j]).id))
        },
        None => forall|j: int|
            0 <= j < processes.len() ==> selected != Some(
                TrackedId::Process((#[trigger] processes[j]).id),
            ),
    }
}

proof fn lemma_row_prefixes(rows: Seq<TrackedSnapshot>, n: int)
    requires
        0 <= n <= rows.len(),
    ensures
        agent_rows(rows.take(n)).len() <= agent_rows(rows).len(),
        forall|j: int|
            0 <= j < agent_rows(rows.take(n)).len() ==> #[trigger] agent_rows(rows)[j]
                == agent_rows(rows.take(n))[j],
        process_rows(rows.take(n)).len() <= process_rows(rows).len(),
        forall|j: int|
            0 <= j < process_rows(rows.take(n)).len() ==> #[trigger] process_rows(rows)[j]
                == process_rows(rows.take(n))[j],
    decreases rows.len() - n,
{
    if n < rows.len() {
        lemma_row_prefixes(rows, n + 1);
        assert(rows.take(n + 1).drop_last() =~= rows.take(n));
    } else {
        assert(rows.take(n) =~= rows);
    }
}

fn selected_agent(rows: &Vec<TrackedSnapshot>, selected: Option<TrackedId>) -> (r: Option<usize>)
    ensures
        marks_agent(rows@, selected, r),
{
    let mut count: usize = 0;
    let mut i: usize = 0;
    while i < rows.len()
        invariant
            i <= rows.len(),
            count <= i,
            count == agent_rows(rows@.take(i as int)).len(),
            marks_agent(rows@.take(i as int), selected, None),
        decreases rows.len() - i,
    {
        proof {
            assert(rows@.take(i + 1).drop_last() =~= rows@.take(i as int));
            lemma_row_prefixes(rows@, i as int);
            lemma_row_prefixes(rows@, i + 1);
        }
        match &rows[i] {
            TrackedSnapshot::Agent(agent) => {
                assert(agent_rows(rows@.take(i + 1))[count as int] == *agent);
                assert(agent_rows(rows@)[count as int] == *agent);
                if let Some(TrackedId::Agent(id)) = selected {
                    if agent.id == id {
                        assert forall|j: int| 0 <= j < count implies selected != Some(
                            TrackedId::Agent((#[trigger] agent_rows(rows@)[j]).id),
                        ) by {
                            assert(agent_rows(rows@)[j] == agent_rows(rows@.take(i as int))[j]);
                        }
                        return Some(count);
                    }
                }
                count = count + 1;
            },
            TrackedSnapshot::Process(_) => {},
        }
        i = i + 1;
    }
    assert(rows@.take(rows@.len() as int) =~= rows@);
    None
}

fn selected_process(rows: &Vec<TrackedSnapshot>, selected: Option<TrackedId>) -> (r: Option<usize>)
    ensures
        marks_process(rows@, selected, r),
{
    let mut count: usize = 0;
    let mut i: usize = 0;
    while i < rows.len()
        invariant
            i <= rows.len(),
            count <= i,
            count == process_rows(rows@.take(i as int)).len(),
            marks_process(rows@.take(i as int), selected, None),
        decreases rows.len() - i,
    {
        proof {
            assert(rows@.take(i + 1).drop_last() =~= rows@.take(i as int));
            lemma_row_prefixes(rows@, i as int);
            lemma_row_prefixes(rows@, i + 1);
        }
        match &rows[i] {
            TrackedSnapshot::Process(process) => {
                assert(process_rows(rows@.take(i + 1))[count as int] == *process);
                assert(process_rows(rows@)[count as int] == *process);
                if let Some(TrackedId::Process(id)) = selected {
                    if process.id == id {
                        assert forall|j: int| 0 <= j < count implies selected != Some(
                            TrackedId::Process((#[trigger] process_rows(rows@)[j]).id),
                        ) by {
                            assert(process_rows(rows@)[j] == process_rows(rows@.take(i as int))[j]);
                        }
                        return Some(count);
                    }
                }
                count = count + 1;
            },
            TrackedSnapshot::Agent(_) => {},
        }
        i = i + 1;
    }
    assert(rows@.take(rows@.len() as int) =~= rows@);
    None
}

/// The request to focus an item, through a client of tmux where one is named.
pub open spec fn focus_request(target: TrackedId, client: Option<String>, r: PanelRequest) -> bool {
    r matches PanelRequest::Focus { target: item, args } && item == target && texts(args@)
        == match client {
        Some(name) => seq!["--client"@, name@],
        None => Seq::empty(),
    }
}

impl Panel {
    /// A panel before anything is known.
    pub fn empty() -> (r: Panel)
        ensures
            r.snapshot.rows@.len() == 0,
            r.snapshot.total_matching == 0,
            r.snapshot.selected is None,
            r.snapshot.viewport_start == 0,
            !r.snapshot.history_loading,
            !r.snapshot.show_history,
            r.snapshot.message is None,
            r.agent_row is None,
            r.process_row is None,
            r.delete_prompt is None,
    {
        Panel {
            snapshot: PanelSnapshot {
                rows: Vec::new(),
                total_matching: 0,
                selected: None,
                viewport_start: 0,
                history_loading: false,
                show_history: false,
                message: None,
            },
            agent_row: None,
            process_row: None,
            delete_prompt: None,
        }
    }

    /// Whether the panel shows a picture, with the selected row marked in its
    /// table.
    pub open spec fn shows(self, snapshot: PanelSnapshot, after: Panel) -> bool {
        &&& after == (Panel {
            snapshot,
            agent_row: after.agent_row,
            process_row: after.process_row,
            ..self
        })
        &&& marks_agent(snapshot.rows@, snapshot.selected, after.agent_row)
        &&& marks_process(snapshot.rows@, snapshot.selected, after.process_row)
    }

    /// Shows another picture.
    pub fn update(&mut self, snapshot: PanelSnapshot)
        ensures
            old(self).shows(snapshot, *final(self)),
    {
        self.agent_row = selected_agent(&snapshot.rows, snapshot.selected);
        self.process_row = selected_process(&snapshot.rows, snapshot.selected);
        self.snapshot = snapshot;
    }

    /// The selected item.
    pub fn selected(&self) -> (r: Option<TrackedId>)
        ensures
            r == self.snapshot.selected,
    {
        self.snapshot.selected
    }

    /// The request to focus the selected item, where one is selected.
    pub fn navigate(&self, client: Option<String>) -> (r: Option<PanelRequest>)
        ensures
            match r {
                None => self.snapshot.selected is None,
                Some(request) => self.snapshot.selected matches Some(target) && focus_request(
                    target,
                    client,
                    request,
                ),
            },
    {
        match self.selected() {
            None => None,
            Some(target) => {
                let args: Vec<String> = match client {
                    Some(name) => vec!["--client".to_owned(), name],
                    None => Vec::new(),
                };
                proof {
                    assert(texts(args@) =~= match client {
                        Some(name) => seq!["--client"@, name@],
                        None => Seq::empty(),
                    });
                }
                Some(PanelRequest::Focus { target, args })
            },
        }
    }

    /// What a key leads to. While the removal of an item is in question, only an
    /// answer or the end of the panel is understood.
    pub open spec fn reacts(
        self,
        key: KeyPress,
        client: Option<String>,
        after: Panel,
        r: Reaction,
    ) -> bool {
        let answered = Panel { delete_prompt: None, ..self };
        match (self.delete_prompt, key) {
            (Some(prompt), KeyPress::Char('y')) => after == answered && r == Reaction::Send(
                PanelRequest::Delete(prompt.target),
            ),
            (Some(prompt), KeyPress::Char('Y')) => after == answered && r == Reaction::Send(
                PanelRequest::Delete(prompt.target),
            ),
            (Some(_), KeyPress::Char('n')) => after == answered && r is Nothing,
            (Some(_), KeyPress::Char('N')) => after == answered && r is Nothing,
            (Some(_), KeyPress::Esc) => after == answered && r is Nothing,
            (_, KeyPress::Char('q')) => after == self && r is Quit,
            (Some(_), _) => after == self && r is Nothing,
            (None, KeyPress::Esc) => after == self && r is Quit,
            (None, KeyPress::Down) => after == self && r == Reaction::Send(
                PanelRequest::MoveSelection(1),
            ),
            (None, KeyPress::Char('j')) => after == self && r == Reaction::Send(
                PanelRequest::MoveSelection(1),
            ),
            (None, KeyPress::Up) => after == self && r == Reaction::Send(
                PanelRequest::MoveSelection(-1 as isize),
            ),
            (None, KeyPress::Char('k')) => after == self && r == Reaction::Send(
                PanelRequest::MoveSelection(-1 as isize),
            ),
            (None, KeyPress::Char('h')) => after == self && r == Reaction::Send(
                PanelRequest::ToggleHistory,
            ),
            (None, KeyPress::Enter) => after == self && match self.snapshot.selected {
                None => r is Nothing,
                Some(target) => r matches Reaction::Send(request) && focus_request(
                    target,
                    client,
                    request,
                ),
            },
            (None, _) => after == self && r is Nothing,
        }
    }

    /// Takes a key; `client` is the client of tmux that the panel belongs to.
    pub fn press(&mut self, key: KeyPress, client: Option<String>) -> (r: Reaction)
        ensures
            old(self).reacts(key, client, *final(self), r),
    {
        match &self.delete_prompt {
            Some(prompt) => {
                let target: TrackedId = prompt.target;
                match key {
                    KeyPress::Char('y') | KeyPress::Char('Y') => {
                        self.delete_prompt = None;
                        Reaction::Send(PanelRequest::Delete(target))
                    },
                    KeyPress::Char('n') | KeyPress::Char('N') | KeyPress::Esc => {
                        self.delete_prompt = None;
                        Reaction::Nothing
                    },
                    KeyPress::Char('q') => Reaction::Quit,
                    _ => Reaction::Nothing,
                }
            },
            None => match key {
                KeyPress::Char('q') | KeyPress::Esc => Reaction::Quit,
                KeyPress::Down | KeyPress::Char('j') => Reaction::Send(
                    PanelRequest::MoveSelection(1),
                ),
                KeyPress::Up | KeyPress::Char('k') => Reaction::Send(
                    PanelRequest::MoveSelection(-1),
                ),
                KeyPress::Char('h') => Reaction::Send(PanelRequest::ToggleHistory),
                KeyPress::Enter => match self.navigate(client) {
                    None => Reaction::Nothing,
                    Some(request) => Reaction::Send(request),
                },
                _ => Reaction::Nothing,
            },
        }
    }
}

/// The panel and the latest picture with a message on whichever will be seen.
pub open spec fn with_message(
    panel: Panel,
    latest: Option<PanelSnapshot>,
    message: String,
) -> (Panel, Option<PanelSnapshot>) {
    match latest {
        Some(picture) => (panel, Some(PanelSnapshot { message: Some(message), ..picture })),
        None => (
            Panel {
                snapshot: PanelSnapshot { message: Some(message), ..panel.snapshot },
                ..panel
            },
            None,
        ),
    }
}

/// What events make of the panel before the latest picture is shown: the panel,
/// that picture, and whether an item was reached.
pub open spec fn consumed(panel: Panel, events: Seq<PanelEvent>) -> (
    Panel,
    Option<PanelSnapshot>,
    bool,
)
    decreases events.len(),
{
    if events.len() == 0 {
        (panel, None, false)
    } else {
        let (before, latest, focused) = consumed(panel, events.drop_last());
        match events.last() {
            PanelEvent::Updated(picture) => (before, Some(picture), focused),
            PanelEvent::Focused => (before, latest, true),
            PanelEvent::Failed(message) => {
                let (after, shown) = with_message(before, latest, message);
                (after, shown, focused)
            },
            PanelEvent::FocusFailed { target, message } => {
                let (after, shown) = with_message(before, latest, message);
                (
                    Panel { delete_prompt: Some(DeletePrompt { target, error: message }), ..after },
                    shown,
                    focused,
                )
            },
        }
    }
}

/// Takes the events that have come, and shows the latest picture among them.
/// The panel is over once an item was reached, or nobody sends events any more.
pub fn consume_events(panel: &mut Panel, events: Vec<PanelEvent>, disconnected: bool) -> (r: bool)
    ensures
        ({
            let (after, latest, focused) = consumed(*old(panel), events@);
            if disconnected {
                r && *final(panel) == after
            } else {
                r == focused && match latest {
                    None => *final(panel) == after,
                    Some(picture) => after.shows(picture, *final(panel)),
                }
            }
        }),
{
    let mut latest: Option<PanelSnapshot> = None;
    let mut focused: bool = false;
    let ghost all = events@;
    for event in it: events.into_iter()
        invariant
            it.seq() == all,
            consumed(*old(panel), all.take(it.index() as int)) == (*panel, latest, focused),
    {
        proof {
            let n = it.index() as int;
            assert(all.take(n + 1).drop_last() =~= all.take(n));
        }
        match event {
            PanelEvent::Updated(picture) => {
                latest = Some(picture);
            },
            PanelEvent::Focused => {
                focused = true;
            },
            PanelEvent::Failed(message) => {
                latest = put_message(panel, latest, message);
            },
            PanelEvent::FocusFailed { target, message } => {
                latest = put_message(panel, latest, message.clone());
                panel.delete_prompt = Some(DeletePrompt { target, error: message });
            },
        }
    }
    assert(all.take(all.len() as int) =~= all);
    if disconnected {
        return true;
    }
    match latest {
        Some(picture) => panel.update(picture),
        None => {},
    }
    focused
}

fn put_message(panel: &mut Panel, latest: Option<PanelSnapshot>, message: String) -> (r: Option<
    PanelSnapshot,
>)
    ensures
        (*final(panel), r) == with_message(*old(panel), latest, message),
{
    match latest {
        Some(mut picture) => {
            picture.message = Some(message);
            Some(picture)
        },
        None => {
            panel.snapshot.message = Some(message);
            None
        },
    }
}

/// How many rows of items there is room for, beside two lines at the bottom and
/// the borders and header of each table.
pub fn viewport_rows(height: u16) -> (r: usize)
    ensures
        r == if height < 8 {
            0
        } else {
            height - 8
        },
{
    if height < 8 {
        0
    } else {
        (height - 8) as usize
    }
}

/// What became of a request that was sent to the worker.
pub fn send_request(delivered: bool) -> (r: Result<(), Error>)
    ensures
        match r {
            Ok(_) => delivered,
            Err(error) => !delivered && error.is_invalid("panel worker stopped"@),
        },
{
    if delivered {
        Ok(())
    } else {
        Err(Error::Invalid("panel worker stopped".to_owned()))
    }
}

/// The failure of the terminal.
pub fn terminal_error(reason: &str) -> (r: Error)
    ensures
        r.is_invalid("terminal error: "@ + reason@),
{
    Error::Invalid("terminal error: ".to_owned().concat(reason))
}

/// A reason behind another, where there is one.
pub open spec fn also(before: Seq<char>, reason: Option<String>) -> Seq<char> {
    match reason {
        None => Seq::empty(),
        Some(reason) => before + reason@,
    }
}

/// The failure to set up the terminal, with what went wrong when it was undone.
pub fn rollback_enter(reason: &str, screen: Option<String>, raw: Option<String>) -> (r: Error)
    ensures
        r.is_invalid(
            "terminal error: "@ + reason@ + also("; could not leave alternate screen: "@, screen)
                + also("; could not disable raw mode: "@, raw),
        ),
{
    let mut text: String = "terminal error: ".to_owned();
    text.append(reason);
    let ghost start = text@;
    match &screen {
        None => {
            assert(start =~= start + also("; could not leave alternate screen: "@, screen));
        },
        Some(reason) => {
            text.append("; could not leave alternate screen: ");
            text.append(reason.as_str());
            assert(text@ =~= start + also("; could not leave alternate screen: "@, screen));
        },
    }
    let ghost middle = text@;
    match &raw {
        None => {
            assert(middle =~= middle + also("; could not disable raw mode: "@, raw));
        },
        Some(reason) => {
            text.append("; could not disable raw mode: ");
            text.append(reason.as_str());
            assert(text@ =~= middle + also("; could not disable raw mode: "@, raw));
        },
    }
    Error::Invalid(text)
}

/// What the whole panel comes to: that the worker broke off, else the first
/// failure of the terminal, of its restoration and of the worker.
pub fn run_outcome(
    outcome: Result<(), Error>,
    restored: Result<(), Error>,
    worker: Option<Result<(), Error>>,
) -> (r: Result<(), Error>)
    ensures
        match worker {
            None => r matches Err(error) && error.is_invalid("panel worker panicked"@),
            Some(worker) => r == if outcome is Err {
                outcome
            } else if restored is Err {
                restored
            } else {
                worker
            },
        },
{
    match worker {
        None => Err(Error::Invalid("panel worker panicked".to_owned())),
        Some(worker) => match outcome {
            Err(error) => Err(error),
            Ok(()) => match restored {
                Err(error) => Err(error),
                Ok(()) => worker,
            },
        },
    }
}

/// A region of the terminal.
#[derive(Clone, Copy, Debug, PartialEq, Eq, Structural)]
pub struct Area {
    pub x: u16,
    pub y: u16,
    pub width: u16,
    pub height: u16,
}

/// The length of a popup along one side: the preferred one, with room for a
/// border around it, and at least one.
pub open spec fn popup_length(preferred: u16, available: u16) -> int {
    let room = if available < 2 {
        0
    } else {
        available - 2
    };
    let length = if preferred < room {
        preferred as int
    } else {
        room
    };
    if length < 1 {
        1
    } else {
        length
    }
}

/// Where something of a length starts in the middle of a region.
pub open spec fn centered(start: u16, available: u16, length: int) -> int {
    start + (if available < length {
        0
    } else {
        available - length
    }) / 2
}

/// What of a length stays within the largest coordinate.
pub open spec fn clipped(start: int, length: int) -> int {
    if length > u16::MAX - start {
        u16::MAX - start
    } else {
        length
    }
}

/// The region of a popup in the middle of another region.
pub fn centered_popup(area: Area, preferred_width: u16, preferred_height: u16) -> (r: Area)
    requires
        centered(area.x, area.width, popup_length(preferred_width, area.width)) <= u16::MAX,
        centered(area.y, area.height, popup_length(preferred_height, area.height)) <= u16::MAX,
    ensures
        ({
            let width = popup_length(preferred_width, area.width);
            let height = popup_length(preferred_height, area.height);
            let x = centered(area.x, area.width, width);
            let y = centered(area.y, area.height, height);
            &&& r.x == x
            &&& r.y == y
            &&& r.width == clipped(x, width)
            &&& r.height == clipped(y, height)
        }),
{
    let (x, width): (u16, u16) = centered_side(area.x, area.width, preferred_width);
    let (y, height): (u16, u16) = centered_side(area.y, area.height, preferred_height);
    Area { x, y, width, height }
}

fn centered_side(start: u16, available: u16, preferred: u16) -> (r: (u16, u16))
    requires
        centered(start, available, popup_length(preferred, available)) <= u16::MAX,
    ensures
        r.0 == centered(start, available, popup_length(preferred, available)),
        r.1 == clipped(
            centered(start, available, popup_length(preferred, available)),
            popup_length(preferred, available),
        ),
{
    let room: u16 = if available < 2 {
        0
    } else {
        available - 2
    };
    let wanted: u16 = if preferred < room {
        preferred
    } else {
        room
    };
    let length: u16 = if wanted < 1 {
        1
    } else {
        wanted
    };
    let free: u16 = if available < length {
        0
    } else {
        available - length
    };
    let place: u16 = start + free / 2;
    if length > u16::MAX - place {
        (place, u16::MAX - place)
    } else {
        (place, length)
    }
}

/// A popup lies within the region that it is drawn over, and leaves a margin
/// where there is room for one.
pub proof fn popups_fit(area: Area, preferred: u16)
    requires
        area.width >= 1,
        area.x + area.width <= u16::MAX,
    ensures
        ({
            let width = popup_length(preferred, area.width);
            let x = centered(area.x, area.width, width);
            &&& area.x <= x
            &&& x + clipped(x, width) <= area.x + area.width
            &&& area.width >= 3 ==> area.x < x && x + clipped(x, width) < area.x + area.width
        }),
{
}

/// What is drawn.
#[derive(Debug)]
pub struct Drawing {
    /// The cells of the table of agents.
    pub agent_rows: Vec<Vec<String>>,
    /// The cells of the table of commands.
    pub process_rows: Vec<Vec<String>>,
    /// The height of the table of agents, with its borders and header.
    pub agent_height: u16,
    pub status: String,
    /// Whether the status is an error.
    pub failed: bool,
    pub prompt: Option<String>,
}

/// The header of the table of agents.
pub fn agent_header() -> (r: Vec<&'static str>)
    ensures
        r@ == seq!["command", "state", "elapsed", "cwd"],
{
    let header: Vec<&'static str> = vec!["command", "state", "elapsed", "cwd"];
    assert(header@ =~= seq!["command", "state", "elapsed", "cwd"]);
    header
}

/// The header of the table of commands, which alone have an exit status.
pub fn process_header() -> (r: Vec<&'static str>)
    ensures
        r@ == seq!["command", "state", "exit", "elapsed", "cwd"],
{
    let header: Vec<&'static str> = vec!["command", "state", "exit", "elapsed", "cwd"];
    assert(header@ =~= seq!["command", "state", "exit", "elapsed", "cwd"]);
    header
}

/// The room that a row or a column of the layout asks for.
#[derive(Clone, Copy, Debug, PartialEq, Eq, Structural)]
pub enum Room {
    /// This much, and more where there is room left.
    AtLeast(u16),
    /// This much.
    Exactly(u16),
}

/// The width that the question takes where there is room for it.
pub const POPUP_WIDTH: u16 = 72;

/// The height that the question takes where there is room for it.
pub const POPUP_HEIGHT: u16 = 7;

/// The rows of the screen: the tables, the status and the keys.
pub fn screen_rows() -> (r: Vec<Room>)
    ensures
        r@ == seq![
            Room::AtLeast(6),
            Room::Exactly(1),
            Room::Exactly(1),
        ],
{
    let rooms: Vec<Room> = vec![
        Room::AtLeast(6),
        Room::Exactly(1),
        Room::Exactly(1),
    ];
    assert(rooms@ =~= seq![
        Room::AtLeast(6),
        Room::Exactly(1),
        Room::Exactly(1),
    ]);
    rooms
}

/// The rows of the tables: the agents, as high as they were drawn, and the
/// commands.
pub fn table_rows(agent_height: u16) -> (r: Vec<Room>)
    ensures
        r@ == seq![
            Room::Exactly(agent_height),
            Room::AtLeast(3),
        ],
{
    let rooms: Vec<Room> = vec![
        Room::Exactly(agent_height),
        Room::AtLeast(3),
    ];
    assert(rooms@ =~= seq![
        Room::Exactly(agent_height),
        Room::AtLeast(3),
    ]);
    rooms
}

/// The columns of the table of agents.
pub fn agent_columns() -> (r: Vec<Room>)
    ensures
        r@ == seq![
            Room::AtLeast(20),
            Room::Exactly(12),
            Room::Exactly(9),
            Room::AtLeast(16),
        ],
{
    let rooms: Vec<Room> = vec![
        Room::AtLeast(20),
        Room::Exactly(12),
        Room::Exactly(9),
        Room::AtLeast(16),
    ];
    assert(rooms@ =~= seq![
        Room::AtLeast(20),
        Room::Exactly(12),
        Room::Exactly(9),
        Room::AtLeast(16),
    ]);
    rooms
}

/// The columns of the table of commands.
pub fn process_columns() -> (r: Vec<Room>)
    ensures
        r@ == seq![
            Room::AtLeast(20),
            Room::Exactly(12),
            Room::Exactly(4),
            Room::Exactly(9),
            Room::AtLeast(16),
        ],
{
    let rooms: Vec<Room> = vec![
        Room::AtLeast(20),
        Room::Exactly(12),
        Room::Exactly(4),
        Room::Exactly(9),
        Room::AtLeast(16),
    ];
    assert(rooms@ =~= seq![
        Room::AtLeast(20),
        Room::Exactly(12),
        Room::Exactly(4),
        Room::Exactly(9),
        Room::AtLeast(16),
    ]);
    rooms
}

/// The line that tells the keys.
pub fn help_line() -> (r: &'static str)
    ensures
        r@ == "j/k or arrows select  enter navigate  h history  q quit"@,
{
    "j/k or arrows select  enter navigate  h history  q quit"
}

/// The cells of an agent: its kind, status, age and directory.
pub open spec fn agent_cells(agent: AgentSnapshot, now: Timestamp) -> Seq<Seq<char>> {
    seq![
        agent.kind@,
        status_text(agent.status),
        clock_text(now.since(agent.started_at) / (NANOS_PER_SEC as nat)),
        agent.orchestrator.directory(),
    ]
}

/// The cells of a command: its label, outcome, exit status, duration and
/// directory.
pub open spec fn process_cells(process: ProcessSnapshot, now: Timestamp) -> Seq<Seq<char>> {
    seq![
        process.label@,
        outcome_text(process.state),
        exit_text(process.state),
        clock_text(process.end(now).since(process.started_at) / (NANOS_PER_SEC as nat)),
        process.orchestrator.directory(),
    ]
}

/// The exit status of a command, or a dash.
pub open spec fn exit_text(state: ProcessState) -> Seq<char> {
    match state.completed() {
        None => "-"@,
        Some((_, status)) => numeral(status as nat),
    }
}

/// Which rows are shown.
pub open spec fn range_text(start: nat, count: nat) -> Seq<char> {
    if count == 0 {
        "0"@
    } else {
        numeral(start + 1) + "-"@ + numeral(start + count)
    }
}

/// The status line: an error, or how many items there are and which are shown.
pub open spec fn footer_text(picture: PanelSnapshot) -> Seq<char> {
    match picture.message {
        Some(message) => "error: "@ + message@,
        None => "worklight: "@ + numeral(picture.total_matching as nat) + " tracked ("@ + (
        if picture.show_history {
            "all"@
        } else {
            "unacked"@
        }) + ")"@ + (if picture.history_loading {
            " (loading history)"@
        } else {
            ""@
        }) + ", showing "@ + range_text(picture.viewport_start as nat, picture.rows@.len()),
    }
}

/// The question whether an item is to be removed.
pub open spec fn question_text(prompt: DeletePrompt) -> Seq<char> {
    "Navigation failed: "@ + prompt.error@ + "\n\nDelete "@ + (match prompt.target {
        TrackedId::Agent(_) => "agent"@,
        TrackedId::Process(_) => "process"@,
    }) + " "@ + (match prompt.target {
        TrackedId::Agent(id) => signed(id as int),
        TrackedId::Process(id) => signed(id as int),
    }) + " from the database? (y/N)"@
}

/// The exit status of a command, or a dash.
pub fn exit_cell(process: &ProcessSnapshot) -> (r: String)
    ensures
        r@ == exit_text(process.state),
{
    match process.exit_status() {
        None => "-".to_owned(),
        Some(status) => natural(status as u128),
    }
}

fn agent_line(agent: &AgentSnapshot, now: Timestamp) -> (r: Vec<String>)
    ensures
        texts(r@) == agent_cells(*agent, now),
{
    let cells: Vec<String> = vec![
        agent.kind.clone(),
        agent.status.as_str().to_owned(),
        format_elapsed(agent.elapsed(now)),
        agent.orchestrator.cwd().to_owned(),
    ];
    assert(texts(cells@) =~= agent_cells(*agent, now));
    cells
}

fn process_line(process: &ProcessSnapshot, now: Timestamp) -> (r: Vec<String>)
    ensures
        texts(r@) == process_cells(*process, now),
{
    let cells: Vec<String> = vec![
        process.label.clone(),
        process.outcome(),
        exit_cell(process),
        format_elapsed(process.elapsed(now)),
        process.orchestrator.cwd().to_owned(),
    ];
    assert(texts(cells@) =~= process_cells(*process, now));
    cells
}

/// The status line.
pub fn footer(picture: &PanelSnapshot) -> (r: String)
    ensures
        r@ == footer_text(*picture),
{
    match &picture.message {
        Some(message) => "error: ".to_owned().concat(message.as_str()),
        None => {
            let mut text: String = "worklight: ".to_owned();
            text.append(natural(picture.total_matching as u128).as_str());
            text.append(" tracked (");
            text.append(if picture.show_history { "all" } else { "unacked" });
            text.append(")");
            text.append(if picture.history_loading { " (loading history)" } else { "" });
            text.append(", showing ");
            let start: u128 = picture.viewport_start as u128;
            let count: u128 = picture.rows.len() as u128;
            if count == 0 {
                text.append("0");
            } else {
                let mut range: String = natural(start + 1);
                range.append("-");
                range.append(natural(start + count).as_str());
                text.append(range.as_str());
            }
            text
        },
    }
}

/// The question whether an item is to be removed.
pub fn question(prompt: &DeletePrompt) -> (r: String)
    ensures
        r@ == question_text(*prompt),
{
    let (kind, id): (&str, i64) = match prompt.target {
        TrackedId::Agent(id) => ("agent", id),
        TrackedId::Process(id) => ("process", id),
    };
    let mut text: String = "Navigation failed: ".to_owned();
    text.append(prompt.error.as_str());
    text.append("\n\nDelete ");
    text.append(kind);
    text.append(" ");
    text.append(decimal(id).as_str());
    text.append(" from the database? (y/N)");
    text
}

/// What is drawn of a panel at a time.
pub fn draw(panel: &Panel, now: Timestamp) -> (r: Drawing)
    ensures
        ({
            let picture = panel.snapshot;
            let agents = agent_rows(picture.rows@);
            let processes = process_rows(picture.rows@);
            &&& r.agent_rows@.len() == agents.len()
            &&& forall|i: int|
                0 <= i < agents.len() ==> texts((#[trigger] r.agent_rows@[i])@) == agent_cells(
                    agents[i],
                    now,
                )
            &&& r.process_rows@.len() == processes.len()
            &&& forall|i: int|
                0 <= i < processes.len() ==> texts((#[trigger] r.process_rows@[i])@)
                    == process_cells(processes[i], now)
            &&& r.agent_height == (if agents.len() + 3 > usize::MAX {
                usize::MAX as nat
            } else {
                agents.len() + 3
            }) % 0x1_0000
            &&& r.status@ == footer_text(picture)
            &&& r.failed == (picture.message is Some)
            &&& match (r.prompt, panel.delete_prompt) {
                (Some(text), Some(prompt)) => text@ == question_text(prompt),
                (None, None) => true,
                _ => false,
            }
        }),
{
    let rows: &Vec<TrackedSnapshot> = &panel.snapshot.rows;
    let mut agents: Vec<Vec<String>> = Vec::new();
    let mut processes: Vec<Vec<String>> = Vec::new();
    let mut i: usize = 0;
    while i < rows.len()
        invariant
            i <= rows.len(),
            agents.len() <= i,
            agents@.len() == agent_rows(rows@.take(i as int)).len(),
            forall|j: int|
                0 <= j < agents@.len() ==> texts((#[trigger] agents@[j])@) == agent_cells(
                    agent_rows(rows@.take(i as int))[j],
                    now,
                ),
            processes@.len() == process_rows(rows@.take(i as int)).len(),
            forall|j: int|
                0 <= j < processes@.len() ==> texts((#[trigger] processes@[j])@) == process_cells(
                    process_rows(rows@.take(i as int))[j],
                    now,
                ),
        decreases rows.len() - i,
    {
        assert(rows@.take(i + 1).drop_last() =~= rows@.take(i as int));
        match &rows[i] {
            TrackedSnapshot::Agent(agent) => agents.push(agent_line(agent, now)),
            TrackedSnapshot::Process(process) => processes.push(process_line(process, now)),
        }
        i = i + 1;
    }
    assert(rows@.take(rows@.len() as int) =~= rows@);
    let height: usize = if agents.len() > usize::MAX - 3 {
        usize::MAX
    } else {
        agents.len() + 3
    };
    let prompt: Option<String> = match &panel.delete_prompt {
        None => None,
        Some(prompt) => Some(question(prompt)),
    };
    Drawing {
        agent_rows: agents,
        process_rows: processes,
        agent_height: (height % 0x1_0000) as u16,
        status: footer(&panel.snapshot),
        failed: panel.snapshot.message.is_some(),
        prompt,
    }
}

} // verus!
