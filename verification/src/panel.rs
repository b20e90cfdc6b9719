//! The items that the panel holds, which of them it lists, and which one is
//! selected.

use vstd::prelude::*;
use vstd::string::*;

use crate::agent::{status_priority, AgentRun, AgentSnapshot, AgentStatus};
use crate::error::{plain, Error, ErrorView};
use crate::observation::implausible_error;
use crate::order::{
    filtering_keeps_order, listing_order, order_fixes_a_list, sort, sorted_keys, sorted_multiset, Key,
};
use crate::process::{inconsistent_text, ProcessRun, ProcessSnapshot};
use crate::storage::Storage;

verus! {

/// An item, by its table and number.
#[derive(Clone, Copy, Debug, PartialEq, Eq, Structural)]
pub enum TrackedId {
    Agent(i64),
    Process(i64),
}

/// What is shown of an item.
#[derive(Debug)]
pub enum TrackedSnapshot {
    Agent(AgentSnapshot),
    Process(ProcessSnapshot),
}

impl TrackedSnapshot {
    /// The item that is shown.
    pub open spec fn item(self) -> TrackedId {
        match self {
            TrackedSnapshot::Agent(agent) => TrackedId::Agent(agent.id),
            TrackedSnapshot::Process(process) => TrackedId::Process(process.id),
        }
    }

    /// The item that is shown.
    pub fn id(&self) -> (r: TrackedId)
        ensures
            r == self.item(),
    {
        match self {
            TrackedSnapshot::Agent(agent) => TrackedId::Agent(agent.id),
            TrackedSnapshot::Process(process) => TrackedId::Process(process.id),
        }
    }
}

/// What the panel knows. Agents and commands are kept by increasing numbers.
pub struct PanelData {
    pub storage: Storage,
    pub agents: Vec<AgentRun>,
    pub agent_discovered_through: i64,
    pub processes: Vec<ProcessRun>,
    pub discovered_through: i64,
    pub history_after: i64,
    pub history_through: Option<i64>,
    pub history_loaded: bool,
    pub show_history: bool,
    pub selected: Option<TrackedId>,
    pub viewport_start: usize,
    pub viewport_len: usize,
    pub dry_run: bool,
    pub message: Option<String>,
}

/// What the panel shows.
#[derive(Debug)]
pub struct PanelSnapshot {
    pub rows: Vec<TrackedSnapshot>,
    pub total_matching: usize,
    pub selected: Option<TrackedId>,
    pub viewport_start: usize,
    pub history_loading: bool,
    pub show_history: bool,
    pub message: Option<String>,
}

/// Whether agents have increasing numbers.
pub open spec fn agents_ordered(agents: Seq<AgentRun>) -> bool {
    forall|i: int, j: int| 0 <= i < j < agents.len() ==> agents[i].id < agents[j].id
}

/// Whether commands have increasing numbers.
pub open spec fn processes_ordered(processes: Seq<ProcessRun>) -> bool {
    forall|i: int, j: int| 0 <= i < j < processes.len() ==> processes[i].id < processes[j].id
}

/// The place of an agent in lists.
pub open spec fn agent_key(agent: AgentRun) -> Key {
    Key {
        priority: status_priority(agent.status),
        started: agent.started_at.nanos,
        id: agent.id,
    }
}

/// The place of a command in lists.
pub open spec fn process_key(process: ProcessRun) -> Key {
    Key { priority: 0, started: process.started_at.nanos, id: process.id }
}

/// Whether an agent calls for attention.
pub open spec fn actionable(agent: AgentRun) -> bool {
    !agent.acknowledged && agent.status != AgentStatus::Killed
}

/// The places of the agents that are listed.
pub open spec fn agent_keys(agents: Seq<AgentRun>, all: bool) -> Seq<Key>
    decreases agents.len(),
{
    if agents.len() == 0 {
        Seq::empty()
    } else if all || actionable(agents.last()) {
        agent_keys(agents.drop_last(), all).push(agent_key(agents.last()))
    } else {
        agent_keys(agents.drop_last(), all)
    }
}

/// The places of the commands that are listed.
pub open spec fn process_keys(processes: Seq<ProcessRun>, all: bool) -> Seq<Key>
    decreases processes.len(),
{
    if processes.len() == 0 {
        Seq::empty()
    } else if all || processes.last().pending() {
        process_keys(processes.drop_last(), all).push(process_key(processes.last()))
    } else {
        process_keys(processes.drop_last(), all)
    }
}

/// Agents, in the order of their places.
pub open spec fn agent_ids(keys: Seq<Key>) -> Seq<TrackedId> {
    keys.sort_by(listing_order()).map_values(|key: Key| TrackedId::Agent(key.id))
}

/// Commands, in the order of their places.
pub open spec fn process_ids(keys: Seq<Key>) -> Seq<TrackedId> {
    keys.sort_by(listing_order()).map_values(|key: Key| TrackedId::Process(key.id))
}

/// The first position of an item; the length where it does not occur.
pub open spec fn position(ids: Seq<TrackedId>, id: TrackedId) -> int
    decreases ids.len(),
{
    if ids.len() == 0 {
        0
    } else if position(ids.drop_last(), id) < ids.len() - 1 {
        position(ids.drop_last(), id)
    } else if ids.last() == id {
        ids.len() - 1
    } else {
        ids.len() as int
    }
}

proof fn lemma_position(ids: Seq<TrackedId>, id: TrackedId, place: int)
    requires
        0 <= place <= ids.len(),
        forall|j: int| 0 <= j < place ==> #[trigger] ids[j] != id,
        place < ids.len() ==> ids[place] == id,
    ensures
        position(ids, id) == place,
    decreases ids.len(),
{
    if ids.len() > 0 {
        if place < ids.len() - 1 {
            lemma_position(ids.drop_last(), id, place);
        } else {
            lemma_position(ids.drop_last(), id, ids.len() - 1);
        }
    }
}

/// Where no item occurs twice, each stands at its own place.
pub proof fn place_in_distinct_items(ids: Seq<TrackedId>, i: int)
    requires
        ids.no_duplicates(),
        0 <= i < ids.len(),
    ensures
        position(ids, ids[i]) == i,
        ids.contains(ids[i]),
{
    lemma_position(ids, ids[i], i);
}

proof fn lemma_position_of(ids: Seq<TrackedId>, id: TrackedId)
    ensures
        0 <= position(ids, id) <= ids.len(),
        position(ids, id) < ids.len() ==> ids[position(ids, id)] == id,
        position(ids, id) < ids.len() <==> ids.contains(id),
    decreases ids.len(),
{
    if ids.len() > 0 {
        lemma_position_of(ids.drop_last(), id);
        if ids.drop_last().contains(id) {
            let i = ids.drop_last().index_of(id);
            assert(ids[i] == id);
        }
        if ids.last() == id {
            assert(ids[ids.len() - 1] == id);
        }
        if ids.contains(id) {
            let i = ids.index_of(id);
            if i < ids.len() - 1 {
                assert(ids.drop_last()[i] == id);
            }
        }
    }
}

/// The first position of an item.
fn find(ids: &Vec<TrackedId>, id: TrackedId) -> (r: Option<usize>)
    ensures
        match r {
            Some(place) => place < ids.len() && place == position(ids@, id) && ids@[place as int]
                == id,
            None => position(ids@, id) == ids.len(),
        },
        r is Some <==> ids@.contains(id),
{
    let mut i: usize = 0;
    while i < ids.len()
        invariant
            i <= ids.len(),
            forall|j: int| 0 <= j < i ==> #[trigger] ids@[j] != id,
        decreases ids.len() - i,
    {
        if ids[i] == id {
            proof {
                lemma_position(ids@, id, i as int);
            }
            return Some(i);
        }
        i = i + 1;
    }
    proof {
        lemma_position(ids@, id, i as int);
    }
    None
}

/// How far an item is from a position in a list.
pub open spec fn distance(all: Seq<TrackedId>, old: int, id: TrackedId) -> int {
    let place = position(all, id);
    if place == all.len() {
        usize::MAX as int
    } else if place < old {
        old - place
    } else {
        place - old
    }
}

/// The first of the closest items among the first `n` visible ones.
pub open spec fn closest(
    all: Seq<TrackedId>,
    old: int,
    visible: Seq<TrackedId>,
    n: int,
) -> int
    decreases n,
{
    if n <= 1 {
        0
    } else {
        let best = closest(all, old, visible, n - 1);
        if distance(all, old, visible[n - 1]) < distance(all, old, visible[best]) {
            n - 1
        } else {
            best
        }
    }
}

/// The visible item that is closest to one in a list of all items.
pub open spec fn nearest(
    all: Seq<TrackedId>,
    selected: TrackedId,
    visible: Seq<TrackedId>,
) -> Option<TrackedId> {
    if position(all, selected) == all.len() || visible.len() == 0 {
        None
    } else {
        Some(visible[closest(all, position(all, selected), visible, visible.len() as int)])
    }
}

/// The first row of a view that shows the row at `index`: the view moves as
/// little as possible, and not beyond the last row.
pub open spec fn scrolled(index: int, total: int, start: int, len: int) -> int {
    if len == 0 {
        index
    } else {
        let moved = if index < start {
            index
        } else if index >= start + len {
            index + 1 - len
        } else {
            start
        };
        let last = if total < len {
            0
        } else {
            total - len
        };
        if moved < last {
            moved
        } else {
            last
        }
    }
}

/// Whether a view shows a row, without blank rows below the last one; a view
/// without rows starts at the row.
pub open spec fn fits_row(index: int, total: int, start: int, len: int) -> bool {
    if len == 0 {
        start == index
    } else {
        start <= index < start + len && start <= (if total < len {
            0
        } else {
            total - len
        })
    }
}

/// Scrolling shows the row, leaves no blank rows below the last one, and moves
/// nothing where both held before.
pub proof fn scrolling_shows_the_row(index: int, total: int, start: int, len: int)
    requires
        0 <= index < total,
        0 <= start,
        0 <= len,
    ensures
        0 <= scrolled(index, total, start, len) <= index,
        fits_row(index, total, scrolled(index, total, start, len), len),
        fits_row(index, total, start, len) ==> scrolled(index, total, start, len) == start,
{
}

impl PanelData {
    /// Whether agents and commands are kept by increasing numbers.
    pub open spec fn wf(self) -> bool {
        agents_ordered(self.agents@) && processes_ordered(self.processes@)
    }

    /// The items that are listed: agents that call for attention, then commands
    /// that are not acknowledged, or all commands.
    pub open spec fn listing(self) -> Seq<TrackedId> {
        self.items(false, self.show_history)
    }

    /// All items, in the order of the list.
    pub open spec fn everything(self) -> Seq<TrackedId> {
        self.items(true, true)
    }

    /// Agents, then commands, each in the order of the list: all of them, or those
    /// that call for attention or are not acknowledged.
    pub open spec fn items(self, all_agents: bool, all_processes: bool) -> Seq<TrackedId> {
        agent_ids(agent_keys(self.agents@, all_agents)) + process_ids(
            process_keys(self.processes@, all_processes),
        )
    }

    /// The panel with a selection, and with the view moved so that it is shown.
    pub open spec fn with_selection(self, selected: TrackedId) -> PanelData {
        PanelData {
            selected: Some(selected),
            viewport_start: scrolled(
                position(self.listing(), selected),
                self.listing().len() as int,
                self.viewport_start as int,
                self.viewport_len as int,
            ) as usize,
            ..self
        }
    }

    /// The panel with its selection on a listed item: the selected one, else the
    /// closest to it, else the first.
    pub open spec fn normalized(self) -> PanelData {
        let ids = self.listing();
        if ids.len() == 0 {
            PanelData { selected: None, viewport_start: 0, ..self }
        } else {
            match self.selected {
                None => self.with_selection(ids[0]),
                Some(selected) => if ids.contains(selected) {
                    self.with_selection(selected)
                } else {
                    match nearest(self.everything(), selected, ids) {
                        None => self.with_selection(ids[0]),
                        Some(next) => self.with_selection(next),
                    }
                },
            }
        }
    }

    /// Whether the selection is a listed item that the view shows.
    pub open spec fn settled(self) -> bool {
        let ids = self.listing();
        match self.selected {
            None => ids.len() == 0 && self.viewport_start == 0,
            Some(selected) => {
                &&& ids.contains(selected)
                &&& self.viewport_start <= position(ids, selected)
                &&& self.viewport_len > 0 ==> position(ids, selected) < self.viewport_start
                    + self.viewport_len
                &&& self.viewport_len == 0 ==> self.viewport_start == position(ids, selected)
            },
        }
    }

    /// The items that are listed.
    pub fn matching_ids(&self) -> (r: Vec<TrackedId>)
        ensures
            r@ == self.listing(),
    {
        list_ids(&self.agents, false, &self.processes, self.show_history)
    }

    /// All items, in the order of the list.
    pub fn all_ids(&self) -> (r: Vec<TrackedId>)
        ensures
            r@ == self.everything(),
    {
        list_ids(&self.agents, true, &self.processes, true)
    }

    /// Puts the selection on a listed item, and the view around it.
    pub fn normalize_selection(&mut self)
        ensures
            *final(self) == old(self).normalized(),
            final(self).settled(),
    {
        let ids: Vec<TrackedId> = self.matching_ids();
        let ghost before = *self;
        if ids.len() == 0 {
            self.selected = None;
            self.viewport_start = 0;
            assert(self.listing() == before.listing());
            return;
        }
        let next: TrackedId = match self.selected {
            None => ids[0],
            Some(selected) => match find(&ids, selected) {
                Some(_) => selected,
                None => match self.nearest_visible(selected, &ids) {
                    None => ids[0],
                    Some(next) => next,
                },
            },
        };
        proof {
            lemma_nearest(self.everything(), self.selected->0, ids@);
        }
        self.selected = Some(next);
        assert(self.listing() == before.listing());
        assert(self.everything() == before.everything());
        self.ensure_selected_visible(&ids);
    }

    /// The visible item that is closest to the selected one among all items.
    pub fn nearest_visible(&self, selected: TrackedId, visible: &Vec<TrackedId>) -> (r: Option<
        TrackedId,
    >)
        ensures
            r == nearest(self.everything(), selected, visible@),
    {
        let all: Vec<TrackedId> = self.all_ids();
        let old: usize = match find(&all, selected) {
            None => {
                return None;
            },
            Some(place) => place,
        };
        if visible.len() == 0 {
            return None;
        }
        let mut best: usize = 0;
        let mut best_distance: usize = distance_from(&all, old, visible[0]);
        let mut i: usize = 1;
        while i < visible.len()
            invariant
                1 <= i <= visible.len(),
                best < i,
                old < all.len(),
                best == closest(all@, old as int, visible@, i as int),
                best_distance == distance(all@, old as int, visible@[best as int]),
            decreases visible.len() - i,
        {
            let next: usize = distance_from(&all, old, visible[i]);
            if next < best_distance {
                best = i;
                best_distance = next;
            }
            i = i + 1;
        }
        Some(visible[best])
    }

    /// The panel with the view moved so that it shows the selection among the given
    /// items: nothing changes where it is not among them, and without a selection
    /// the view starts at the first item.
    pub open spec fn scrolled_in(self, ids: Seq<TrackedId>) -> PanelData {
        match self.selected {
            None => PanelData { viewport_start: 0, ..self },
            Some(selected) => if ids.contains(selected) {
                PanelData {
                    viewport_start: scrolled(
                        position(ids, selected),
                        ids.len() as int,
                        self.viewport_start as int,
                        self.viewport_len as int,
                    ) as usize,
                    ..self
                }
            } else {
                self
            },
        }
    }

    /// Moves the view so that it shows the selection among the given items.
    pub fn ensure_selected_visible(&mut self, ids: &Vec<TrackedId>)
        ensures
            *final(self) == old(self).scrolled_in(ids@),
            old(self).selected matches Some(selected) ==> ids@.contains(selected)
                ==> final(self).viewport_start == scrolled(
                position(ids@, selected),
                ids@.len() as int,
                old(self).viewport_start as int,
                old(self).viewport_len as int,
            ),
            forall|i: int|
                ids@.no_duplicates() && 0 <= i < ids@.len() && old(self).selected == Some(
                    #[trigger] ids@[i],
                ) ==> {
                    &&& fits_row(
                        i,
                        ids@.len() as int,
                        final(self).viewport_start as int,
                        final(self).viewport_len as int,
                    )
                    &&& fits_row(
                        i,
                        ids@.len() as int,
                        old(self).viewport_start as int,
                        old(self).viewport_len as int,
                    ) ==> final(self).viewport_start == old(self).viewport_start
                },
            ids@ == old(self).listing() ==> (old(self).selected matches Some(selected)
                && ids@.contains(selected)) ==> final(self).settled(),
    {
        proof {
            assert forall|i: int|
                ids@.no_duplicates() && 0 <= i < ids@.len() && self.selected == Some(
                    #[trigger] ids@[i],
                ) implies position(ids@, ids@[i]) == i && ids@.contains(ids@[i]) by {
                place_in_distinct_items(ids@, i);
            }
        }
        let ghost before = *self;
        let selected: TrackedId = match self.selected {
            None => {
                self.viewport_start = 0;
                return;
            },
            Some(selected) => selected,
        };
        let index: usize = match find(ids, selected) {
            None => {
                return;
            },
            Some(index) => index,
        };
        if self.viewport_len == 0 {
            self.viewport_start = index;
            assert(self.listing() == before.listing());
            return;
        }
        if index < self.viewport_start {
            self.viewport_start = index;
        } else if index - self.viewport_start >= self.viewport_len {
            self.viewport_start = index + 1 - self.viewport_len;
        }
        let last: usize = if ids.len() < self.viewport_len {
            0
        } else {
            ids.len() - self.viewport_len
        };
        if last < self.viewport_start {
            self.viewport_start = last;
        }
        assert(self.listing() == before.listing());
    }

    /// Moves the selection by a number of rows, within the list.
    pub fn move_selection(&mut self, delta: isize)
        ensures
            *final(self) == old(self).moved(delta as int),
            final(self).settled(),
    {
        let ids: Vec<TrackedId> = self.matching_ids();
        let ghost before = *self;
        if ids.len() == 0 {
            self.selected = None;
            self.viewport_start = 0;
            assert(self.listing() == before.listing());
            return;
        }
        let current: usize = match self.selected {
            None => 0,
            Some(selected) => match find(&ids, selected) {
                None => 0,
                Some(place) => place,
            },
        };
        let wanted: i128 = current as i128 + delta as i128;
        let next: usize = if wanted < 0 {
            0
        } else if wanted >= ids.len() as i128 {
            ids.len() - 1
        } else {
            wanted as usize
        };
        self.selected = Some(ids[next]);
        assert(self.listing() == before.listing());
        self.ensure_selected_visible(&ids);
    }

    /// The panel once the selection has been moved by a number of rows.
    pub open spec fn moved(self, delta: int) -> PanelData {
        let ids = self.listing();
        if ids.len() == 0 {
            PanelData { selected: None, viewport_start: 0, ..self }
        } else {
            let current = match self.selected {
                None => 0,
                Some(selected) => if ids.contains(selected) {
                    position(ids, selected)
                } else {
                    0
                },
            };
            let wanted = current + delta;
            let next = if wanted < 0 {
                0
            } else if wanted >= ids.len() {
                ids.len() - 1
            } else {
                wanted
            };
            self.with_selection(ids[next])
        }
    }

    /// Takes over how many rows there is room for.
    pub fn resize(&mut self, rows: usize)
        ensures
            *final(self) == (PanelData { viewport_len: rows, ..*old(self) }).normalized(),
            final(self).settled(),
    {
        self.viewport_len = rows;
        self.normalize_selection();
    }
}

fn distance_from(all: &Vec<TrackedId>, old: usize, id: TrackedId) -> (r: usize)
    requires
        old < all.len(),
    ensures
        r == distance(all@, old as int, id),
{
    match find(all, id) {
        None => usize::MAX,
        Some(place) => {
            if place < old {
                old - place
            } else {
                place - old
            }
        },
    }
}

proof fn lemma_nearest(all: Seq<TrackedId>, selected: TrackedId, visible: Seq<TrackedId>)
    ensures
        nearest(all, selected, visible) matches Some(id) ==> visible.contains(id),
{
    if visible.len() > 0 {
        lemma_closest(all, position(all, selected), visible, visible.len() as int);
    }
}

proof fn lemma_closest(all: Seq<TrackedId>, old: int, visible: Seq<TrackedId>, n: int)
    requires
        1 <= n <= visible.len(),
    ensures
        0 <= closest(all, old, visible, n) < n,
        forall|i: int|
            0 <= i < n ==> distance(all, old, visible[closest(all, old, visible, n)]) <= distance(
                all,
                old,
                #[trigger] visible[i],
            ),
        forall|i: int|
            0 <= i < closest(all, old, visible, n) ==> distance(
                all,
                old,
                visible[closest(all, old, visible, n)],
            ) < distance(all, old, #[trigger] visible[i]),
    decreases n,
{
    if n > 1 {
        lemma_closest(all, old, visible, n - 1);
    }
}

fn list_ids(
    agents: &Vec<AgentRun>,
    all_agents: bool,
    processes: &Vec<ProcessRun>,
    all_processes: bool,
) -> (r: Vec<TrackedId>)
    ensures
        r@ == agent_ids(agent_keys(agents@, all_agents)) + process_ids(
            process_keys(processes@, all_processes),
        ),
{
    let mut keys: Vec<Key> = Vec::new();
    let mut i: usize = 0;
    while i < agents.len()
        invariant
            i <= agents.len(),
            keys@ == agent_keys(agents@.take(i as int), all_agents),
        decreases agents.len() - i,
    {
        let agent: &AgentRun = &agents[i];
        assert(agents@.take(i + 1).drop_last() =~= agents@.take(i as int));
        if all_agents || (!agent.acknowledged && agent.status != AgentStatus::Killed) {
            keys.push(
                Key {
                    priority: agent.status.priority(),
                    started: agent.started_at.nanos,
                    id: agent.id,
                },
            );
        }
        i = i + 1;
    }
    assert(agents@.take(agents@.len() as int) =~= agents@);
    let sorted: Vec<Key> = sort(keys);
    let mut ids: Vec<TrackedId> = Vec::new();
    let mut j: usize = 0;
    while j < sorted.len()
        invariant
            j <= sorted.len(),
            ids@ == sorted@.take(j as int).map_values(|key: Key| TrackedId::Agent(key.id)),
        decreases sorted.len() - j,
    {
        ids.push(TrackedId::Agent(sorted[j].id));
        j = j + 1;
        assert(ids@ =~= sorted@.take(j as int).map_values(|key: Key| TrackedId::Agent(key.id)));
    }
    assert(sorted@.take(sorted@.len() as int) =~= sorted@);
    let ghost first = ids@;
    assert(first =~= agent_ids(agent_keys(agents@, all_agents)));
    let mut keys: Vec<Key> = Vec::new();
    let mut i: usize = 0;
    while i < processes.len()
        invariant
            i <= processes.len(),
            keys@ == process_keys(processes@.take(i as int), all_processes),
        decreases processes.len() - i,
    {
        let process: &ProcessRun = &processes[i];
        assert(processes@.take(i + 1).drop_last() =~= processes@.take(i as int));
        if all_processes || process.needs_sync() {
            keys.push(Key { priority: 0, started: process.started_at.nanos, id: process.id });
        }
        i = i + 1;
    }
    assert(processes@.take(processes@.len() as int) =~= processes@);
    let sorted: Vec<Key> = sort(keys);
    let mut j: usize = 0;
    assert(ids@ =~= first + sorted@.take(0).map_values(|key: Key| TrackedId::Process(key.id)));
    while j < sorted.len()
        invariant
            j <= sorted.len(),
            ids@ == first + sorted@.take(j as int).map_values(
                |key: Key| TrackedId::Process(key.id),
            ),
        decreases sorted.len() - j,
    {
        ids.push(TrackedId::Process(sorted[j].id));
        j = j + 1;
        assert(ids@ =~= first + sorted@.take(j as int).map_values(
            |key: Key| TrackedId::Process(key.id),
        ));
    }
    assert(sorted@.take(sorted@.len() as int) =~= sorted@);
    assert(ids@ =~= first + process_ids(process_keys(processes@, all_processes)));
    ids
}

/// A number that is put behind the smaller ones and before the larger ones keeps
/// numbers increasing.
proof fn lemma_insert_keeps_order(ids: Seq<i64>, slot: int, id: i64)
    requires
        forall|i: int, j: int| 0 <= i < j < ids.len() ==> ids[i] < ids[j],
        0 <= slot <= ids.len(),
        forall|i: int| 0 <= i < slot ==> #[trigger] ids[i] < id,
        forall|i: int| slot <= i < ids.len() ==> #[trigger] ids[i] > id,
    ensures
        forall|i: int, j: int|
            0 <= i < j < ids.insert(slot, id).len() ==> ids.insert(slot, id)[i] < ids.insert(
                slot,
                id,
            )[j],
{
}

/// The place that an agent with a number has, or gets, among others.
pub open spec fn agent_slot(runs: Seq<AgentRun>, id: i64) -> int
    decreases runs.len(),
{
    if runs.len() == 0 {
        0
    } else if runs.last().id < id {
        runs.len() as int
    } else {
        agent_slot(runs.drop_last(), id)
    }
}

/// Where the place of a number is: behind the smaller ones, and before the others.
pub proof fn lemma_agent_slot(runs: Seq<AgentRun>, id: i64)
    requires
        agents_ordered(runs),
    ensures
        0 <= agent_slot(runs, id) <= runs.len(),
        forall|i: int| 0 <= i < agent_slot(runs, id) ==> (#[trigger] runs[i]).id < id,
        forall|i: int| agent_slot(runs, id) <= i < runs.len() ==> (#[trigger] runs[i]).id >= id,
    decreases runs.len(),
{
    if runs.len() > 0 {
        lemma_agent_slot(runs.drop_last(), id);
        assert forall|i: int| 0 <= i < agent_slot(runs, id) implies (#[trigger] runs[i]).id
            < id by {
            if runs.last().id >= id {
                assert(runs.drop_last()[i].id < id);
            }
        }
        assert forall|i: int| agent_slot(runs, id) <= i < runs.len() implies (
        #[trigger] runs[i]).id >= id by {
            if i < runs.len() - 1 {
                assert(runs.drop_last()[i].id >= id);
            }
        }
    }
}

/// Whether there is an agent with a number.
pub open spec fn has_agent(runs: Seq<AgentRun>, id: i64) -> bool {
    agent_slot(runs, id) < runs.len() && runs[agent_slot(runs, id)].id == id
}

/// The place of an agent with a number.
pub fn find_agent(runs: &Vec<AgentRun>, id: i64) -> (r: usize)
    requires
        agents_ordered(runs@),
    ensures
        r == agent_slot(runs@, id),
        r <= runs.len(),
{
    let mut low: usize = 0;
    let mut high: usize = runs.len();
    while low < high
        invariant
            low <= high <= runs.len(),
            agents_ordered(runs@),
            forall|i: int| 0 <= i < low ==> (#[trigger] runs@[i]).id < id,
            forall|i: int| high <= i < runs.len() ==> (#[trigger] runs@[i]).id >= id,
        decreases high - low,
    {
        let middle: usize = low + (high - low) / 2;
        if runs[middle].id < id {
            low = middle + 1;
        } else {
            high = middle;
        }
    }
    proof {
        lemma_agent_slot(runs@, id);
        let slot = agent_slot(runs@, id);
        if slot < low {
            assert(runs@[slot].id < id);
        }
        if low < slot {
            assert(runs@[low as int].id >= id);
        }
    }
    low
}

/// The agents once another has been found: it joins them, or is one more
/// observation of one of them.
pub open spec fn merged_agent(runs: Seq<AgentRun>, run: AgentRun) -> (
    Seq<AgentRun>,
    Result<(), ErrorView>,
) {
    let slot = agent_slot(runs, run.id);
    if has_agent(runs, run.id) {
        (
            runs.update(slot, runs[slot].observed(run.status, run.acknowledged)),
            if runs[slot].plausible(run.status, run.acknowledged) {
                Ok(())
            } else {
                Err(implausible_error(runs[slot], run.status, run.acknowledged))
            },
        )
    } else {
        (runs.insert(slot, run), Ok(()))
    }
}

/// The agents once others have been found, up to the first contradiction.
pub open spec fn merged_agents(runs: Seq<AgentRun>, found: Seq<AgentRun>) -> (
    Seq<AgentRun>,
    Result<(), ErrorView>,
)
    decreases found.len(),
{
    if found.len() == 0 {
        (runs, Ok(()))
    } else {
        let (before, r) = merged_agents(runs, found.drop_last());
        if r is Err {
            (before, r)
        } else {
            merged_agent(before, found.last())
        }
    }
}

proof fn lemma_merged_agents_error(runs: Seq<AgentRun>, found: Seq<AgentRun>, n: int)
    requires
        0 <= n <= found.len(),
        merged_agents(runs, found.take(n)).1 is Err,
    ensures
        merged_agents(runs, found) == merged_agents(runs, found.take(n)),
    decreases found.len() - n,
{
    if n < found.len() {
        assert(found.take(n + 1).drop_last() =~= found.take(n));
        lemma_merged_agents_error(runs, found, n + 1);
    } else {
        assert(found.take(n) =~= found);
    }
}

/// Merging keeps agents in the order of their numbers.
pub proof fn lemma_merged_agent_ordered(runs: Seq<AgentRun>, run: AgentRun)
    requires
        agents_ordered(runs),
    ensures
        agents_ordered(merged_agent(runs, run).0),
{
    let slot = agent_slot(runs, run.id);
    let after = merged_agent(runs, run).0;
    let number = |run: AgentRun| run.id;
    lemma_agent_slot(runs, run.id);
    if has_agent(runs, run.id) {
        assert(after.map_values(number) =~= runs.map_values(number));
    } else {
        assert(after.map_values(number) =~= runs.map_values(number).insert(slot, run.id));
        lemma_insert_keeps_order(runs.map_values(number), slot, run.id);
    }
    assert forall|i: int, j: int| 0 <= i < j < after.len() implies after[i].id < after[j].id by {
        let ids = after.map_values(number);
        if has_agent(runs, run.id) {
            assert(ids[i] == runs[i].id && ids[j] == runs[j].id);
        }
        assert(ids[i] == after[i].id && ids[j] == after[j].id);
    }
}

fn merge_agent(runs: &mut Vec<AgentRun>, run: AgentRun) -> (r: Result<(), Error>)
    requires
        agents_ordered(old(runs)@),
    ensures
        (final(runs)@, plain(r)) == merged_agent(old(runs)@, run),
        agents_ordered(final(runs)@),
{
    let ghost before = runs@;
    let slot: usize = find_agent(runs, run.id);
    proof {
        lemma_agent_slot(before, run.id);
        lemma_merged_agent_ordered(before, run);
    }
    if slot < runs.len() && runs[slot].id == run.id {
        let seen: Result<(), Error> = runs[slot].observe(run.status, run.acknowledged);
        proof {
            assert(seen is Err ==> seen->Err_0@ == implausible_error(
                before[slot as int],
                run.status,
                run.acknowledged,
            ));
            assert(runs@ =~= merged_agent(before, run).0);
        }
        seen
    } else {
        runs.insert(slot, run);
        assert(runs@ =~= merged_agent(before, run).0);
        Ok(())
    }
}

/// The places of listed agents are those of the agents that are to be listed.
proof fn lemma_agent_keys(runs: Seq<AgentRun>, all: bool, key: Key)
    ensures
        agent_keys(runs, all).contains(key) <==> exists|k: int|
            0 <= k < runs.len() && (all || actionable(#[trigger] runs[k])) && agent_key(runs[k]) == key,
    decreases runs.len(),
{
    if runs.len() > 0 {
        let shorter = runs.drop_last();
        let before = agent_keys(shorter, all);
        lemma_agent_keys(shorter, all, key);
        let keys = agent_keys(runs, all);
        if before.contains(key) {
            let k = choose|k: int|
                0 <= k < shorter.len() && (all || actionable(#[trigger] shorter[k])) && agent_key(
                    shorter[k],
                ) == key;
            assert(runs[k] == shorter[k]);
            let i = before.index_of(key);
            assert(keys[i] == key);
        }
        let last = runs.len() - 1;
        if (all || actionable(runs[last])) && agent_key(runs[last]) == key {
            assert(keys[keys.len() - 1] == key);
        }
        if keys.contains(key) {
            let i = keys.index_of(key);
            if i < before.len() {
                assert(before[i] == key);
            } else {
                assert(runs[last] == runs.last());
            }
        }
        if exists|k: int|
            0 <= k < runs.len() && (all || actionable(#[trigger] runs[k])) && agent_key(runs[k]) == key {
            let k = choose|k: int|
                0 <= k < runs.len() && (all || actionable(#[trigger] runs[k])) && agent_key(runs[k]) == key;
            if k < last {
                assert(shorter[k] == runs[k]);
            }
        }
    }
}

/// The place that a command with a number has, or gets, among others.
pub open spec fn process_slot(runs: Seq<ProcessRun>, id: i64) -> int
    decreases runs.len(),
{
    if runs.len() == 0 {
        0
    } else if runs.last().id < id {
        runs.len() as int
    } else {
        process_slot(runs.drop_last(), id)
    }
}

/// Where the place of a number is: behind the smaller ones, and before the others.
pub proof fn lemma_process_slot(runs: Seq<ProcessRun>, id: i64)
    requires
        processes_ordered(runs),
    ensures
        0 <= process_slot(runs, id) <= runs.len(),
        forall|i: int| 0 <= i < process_slot(runs, id) ==> (#[trigger] runs[i]).id < id,
        forall|i: int| process_slot(runs, id) <= i < runs.len() ==> (#[trigger] runs[i]).id >= id,
    decreases runs.len(),
{
    if runs.len() > 0 {
        lemma_process_slot(runs.drop_last(), id);
        assert forall|i: int| 0 <= i < process_slot(runs, id) implies (#[trigger] runs[i]).id
            < id by {
            if runs.last().id >= id {
                assert(runs.drop_last()[i].id < id);
            }
        }
        assert forall|i: int| process_slot(runs, id) <= i < runs.len() implies (
        #[trigger] runs[i]).id >= id by {
            if i < runs.len() - 1 {
                assert(runs.drop_last()[i].id >= id);
            }
        }
    }
}

/// Whether there is a command with a number.
pub open spec fn has_process(runs: Seq<ProcessRun>, id: i64) -> bool {
    process_slot(runs, id) < runs.len() && runs[process_slot(runs, id)].id == id
}

/// The place of a command with a number.
pub fn find_process(runs: &Vec<ProcessRun>, id: i64) -> (r: usize)
    requires
        processes_ordered(runs@),
    ensures
        r == process_slot(runs@, id),
        r <= runs.len(),
{
    let mut low: usize = 0;
    let mut high: usize = runs.len();
    while low < high
        invariant
            low <= high <= runs.len(),
            processes_ordered(runs@),
            forall|i: int| 0 <= i < low ==> (#[trigger] runs@[i]).id < id,
            forall|i: int| high <= i < runs.len() ==> (#[trigger] runs@[i]).id >= id,
        decreases high - low,
    {
        let middle: usize = low + (high - low) / 2;
        if runs[middle].id < id {
            low = middle + 1;
        } else {
            high = middle;
        }
    }
    proof {
        lemma_process_slot(runs@, id);
        let slot = process_slot(runs@, id);
        if slot < low {
            assert(runs@[slot].id < id);
        }
        if low < slot {
            assert(runs@[low as int].id >= id);
        }
    }
    low
}

/// The commands once another has been found: it joins them, or is one more
/// observation of one of them.
pub open spec fn merged_process(runs: Seq<ProcessRun>, run: ProcessRun) -> (
    Seq<ProcessRun>,
    Result<(), ErrorView>,
) {
    let slot = process_slot(runs, run.id);
    if has_process(runs, run.id) {
        (
            runs.update(slot, runs[slot].observed(run.state)),
            if runs[slot].state.conflicts(run.state) {
                Err(ErrorView::CorruptData(inconsistent_text(run.id)))
            } else {
                Ok(())
            },
        )
    } else {
        (runs.insert(slot, run), Ok(()))
    }
}

/// The commands once others have been found, up to the first contradiction.
pub open spec fn merged_processes(runs: Seq<ProcessRun>, found: Seq<ProcessRun>) -> (
    Seq<ProcessRun>,
    Result<(), ErrorView>,
)
    decreases found.len(),
{
    if found.len() == 0 {
        (runs, Ok(()))
    } else {
        let (before, r) = merged_processes(runs, found.drop_last());
        if r is Err {
            (before, r)
        } else {
            merged_process(before, found.last())
        }
    }
}

proof fn lemma_merged_processes_error(runs: Seq<ProcessRun>, found: Seq<ProcessRun>, n: int)
    requires
        0 <= n <= found.len(),
        merged_processes(runs, found.take(n)).1 is Err,
    ensures
        merged_processes(runs, found) == merged_processes(runs, found.take(n)),
    decreases found.len() - n,
{
    if n < found.len() {
        assert(found.take(n + 1).drop_last() =~= found.take(n));
        lemma_merged_processes_error(runs, found, n + 1);
    } else {
        assert(found.take(n) =~= found);
    }
}

/// Merging keeps commands in the order of their numbers.
pub proof fn lemma_merged_process_ordered(runs: Seq<ProcessRun>, run: ProcessRun)
    requires
        processes_ordered(runs),
    ensures
        processes_ordered(merged_process(runs, run).0),
{
    let slot = process_slot(runs, run.id);
    let after = merged_process(runs, run).0;
    let number = |run: ProcessRun| run.id;
    lemma_process_slot(runs, run.id);
    if has_process(runs, run.id) {
        assert(after.map_values(number) =~= runs.map_values(number));
    } else {
        assert(after.map_values(number) =~= runs.map_values(number).insert(slot, run.id));
        lemma_insert_keeps_order(runs.map_values(number), slot, run.id);
    }
    assert forall|i: int, j: int| 0 <= i < j < after.len() implies after[i].id < after[j].id by {
        let ids = after.map_values(number);
        if has_process(runs, run.id) {
            assert(ids[i] == runs[i].id && ids[j] == runs[j].id);
        }
        assert(ids[i] == after[i].id && ids[j] == after[j].id);
    }
}

fn merge_process(runs: &mut Vec<ProcessRun>, run: ProcessRun) -> (r: Result<(), Error>)
    requires
        processes_ordered(old(runs)@),
    ensures
        (final(runs)@, plain(r)) == merged_process(old(runs)@, run),
        processes_ordered(final(runs)@),
{
    let ghost before = runs@;
    let slot: usize = find_process(runs, run.id);
    proof {
        lemma_process_slot(before, run.id);
        lemma_merged_process_ordered(before, run);
    }
    if slot < runs.len() && runs[slot].id == run.id {
        let seen: Result<(), Error> = runs[slot].observe(run.state);
        proof {
            assert(runs@ =~= merged_process(before, run).0);
        }
        seen
    } else {
        runs.insert(slot, run);
        assert(runs@ =~= merged_process(before, run).0);
        Ok(())
    }
}

/// The places of listed commands are those of the commands that are to be listed.
proof fn lemma_process_keys(runs: Seq<ProcessRun>, all: bool, key: Key)
    ensures
        process_keys(runs, all).contains(key) <==> exists|k: int|
            0 <= k < runs.len() && (all || (#[trigger] runs[k]).pending()) && process_key(runs[k]) == key,
    decreases runs.len(),
{
    if runs.len() > 0 {
        let shorter = runs.drop_last();
        let before = process_keys(shorter, all);
        lemma_process_keys(shorter, all, key);
        let keys = process_keys(runs, all);
        if before.contains(key) {
            let k = choose|k: int|
                0 <= k < shorter.len() && (all || (#[trigger] shorter[k]).pending()) && process_key(
                    shorter[k],
                ) == key;
            assert(runs[k] == shorter[k]);
            let i = before.index_of(key);
            assert(keys[i] == key);
        }
        let last = runs.len() - 1;
        if (all || runs[last].pending()) && process_key(runs[last]) == key {
            assert(keys[keys.len() - 1] == key);
        }
        if keys.contains(key) {
            let i = keys.index_of(key);
            if i < before.len() {
                assert(before[i] == key);
            } else {
                assert(runs[last] == runs.last());
            }
        }
        if exists|k: int|
            0 <= k < runs.len() && (all || (#[trigger] runs[k]).pending()) && process_key(runs[k]) == key {
            let k = choose|k: int|
                0 <= k < runs.len() && (all || (#[trigger] runs[k]).pending()) && process_key(runs[k]) == key;
            if k < last {
                assert(shorter[k] == runs[k]);
            }
        }
    }
}

impl PanelData {
    /// Takes over agents that were found.
    pub fn merge_agents(&mut self, found: Vec<AgentRun>) -> (r: Result<(), Error>)
        requires
            old(self).wf(),
        ensures
            final(self).wf(),
            (final(self).agents@, plain(r)) == merged_agents(old(self).agents@, found@),
            *final(self) == if r is Ok {
                (PanelData { agents: final(self).agents, ..*old(self) }).normalized()
            } else {
                PanelData { agents: final(self).agents, ..*old(self) }
            },
            r is Ok ==> final(self).settled(),
    {
        let ghost before = *self;
        let ghost all = found@;
        for agent in it: found.into_iter()
            invariant
                it.seq() == all,
                before == *old(self),
                before.wf(),
                agents_ordered(self.agents@),
                *self == (PanelData { agents: self.agents, ..before }),
                merged_agents(before.agents@, all.take(it.index() as int)) == (
                    self.agents@,
                    Ok::<(), ErrorView>(()),
                ),
        {
            proof {
                let n = it.index() as int;
                assert(all.take(n + 1).drop_last() =~= all.take(n));
                if merged_agents(before.agents@, all.take(n + 1)).1 is Err {
                    lemma_merged_agents_error(before.agents@, all, n + 1);
                }
            }
            match merge_agent(&mut self.agents, agent) {
                Err(error) => return Err(error),
                Ok(()) => {},
            }
        }
        assert(all.take(all.len() as int) =~= all);
        self.normalize_selection();
        Ok(())
    }

    /// Takes over commands that were found.
    pub fn merge_processes(&mut self, found: Vec<ProcessRun>) -> (r: Result<(), Error>)
        requires
            old(self).wf(),
        ensures
            final(self).wf(),
            (final(self).processes@, plain(r)) == merged_processes(old(self).processes@, found@),
            *final(self) == if r is Ok {
                (PanelData { processes: final(self).processes, ..*old(self) }).normalized()
            } else {
                PanelData { processes: final(self).processes, ..*old(self) }
            },
            r is Ok ==> final(self).settled(),
    {
        let ghost before = *self;
        let ghost all = found@;
        for process in it: found.into_iter()
            invariant
                it.seq() == all,
                before == *old(self),
                before.wf(),
                processes_ordered(self.processes@),
                *self == (PanelData { processes: self.processes, ..before }),
                merged_processes(before.processes@, all.take(it.index() as int)) == (
                    self.processes@,
                    Ok::<(), ErrorView>(()),
                ),
        {
            proof {
                let n = it.index() as int;
                assert(all.take(n + 1).drop_last() =~= all.take(n));
                if merged_processes(before.processes@, all.take(n + 1)).1 is Err {
                    lemma_merged_processes_error(before.processes@, all, n + 1);
                }
            }
            match merge_process(&mut self.processes, process) {
                Err(error) => return Err(error),
                Ok(()) => {},
            }
        }
        assert(all.take(all.len() as int) =~= all);
        self.normalize_selection();
        Ok(())
    }

    /// What is shown of an item that the panel holds.
    pub open spec fn row_of(self, id: TrackedId) -> TrackedSnapshot {
        match id {
            TrackedId::Agent(id) => TrackedSnapshot::Agent(
                self.agents@[agent_slot(self.agents@, id)].shown(),
            ),
            TrackedId::Process(id) => TrackedSnapshot::Process(
                self.processes@[process_slot(self.processes@, id)].shown(),
            ),
        }
    }

    /// Whether the panel holds an item.
    pub open spec fn holds(self, id: TrackedId) -> bool {
        match id {
            TrackedId::Agent(id) => has_agent(self.agents@, id),
            TrackedId::Process(id) => has_process(self.processes@, id),
        }
    }

    /// The first row of the view, within the list.
    pub open spec fn view_start(self) -> int {
        let total = self.listing().len() as int;
        if self.viewport_start < total {
            self.viewport_start as int
        } else {
            total
        }
    }

    /// The row behind the view, within the list.
    pub open spec fn view_end(self) -> int {
        let total = self.listing().len() as int;
        if self.view_start() + self.viewport_len < total {
            self.view_start() + self.viewport_len
        } else {
            total
        }
    }

    /// Whether a picture shows the panel: the items of the list that the view
    /// covers, and what goes with them.
    pub open spec fn pictured(self, r: PanelSnapshot) -> bool {
        &&& r.rows@ == self.listing().subrange(self.view_start(), self.view_end()).map_values(
            |id: TrackedId| self.row_of(id),
        )
        &&& r.total_matching == self.listing().len()
        &&& r.selected == self.selected
        &&& r.viewport_start == self.view_start()
        &&& r.history_loading == (self.show_history && !self.history_loaded)
        &&& r.show_history == self.show_history
        &&& r.message == self.message
    }

    /// What the panel shows.
    pub fn snapshot(&self) -> (r: PanelSnapshot)
        requires
            self.wf(),
        ensures
            self.pictured(r),
    {
        let ids: Vec<TrackedId> = self.matching_ids();
        let total: usize = ids.len();
        let start: usize = if self.viewport_start < total {
            self.viewport_start
        } else {
            total
        };
        let end: usize = if self.viewport_len < total - start {
            start + self.viewport_len
        } else {
            total
        };
        let mut rows: Vec<TrackedSnapshot> = Vec::new();
        let mut i: usize = start;
        while i < end
            invariant
                start <= i <= end <= ids.len(),
                self.wf(),
                ids@ == self.listing(),
                rows@ == ids@.subrange(start as int, i as int).map_values(
                    |id: TrackedId| self.row_of(id),
                ),
            decreases end - i,
        {
            proof {
                assert(ids@.contains(ids@[i as int]));
                list_is_exact(*self, ids@[i as int]);
            }
            match ids[i] {
                TrackedId::Agent(id) => {
                    let slot: usize = find_agent(&self.agents, id);
                    rows.push(TrackedSnapshot::Agent(self.agents[slot].snapshot()));
                },
                TrackedId::Process(id) => {
                    let slot: usize = find_process(&self.processes, id);
                    rows.push(TrackedSnapshot::Process(self.processes[slot].snapshot()));
                },
            }
            i = i + 1;
            assert(rows@ =~= ids@.subrange(start as int, i as int).map_values(
                |id: TrackedId| self.row_of(id),
            ));
        }
        let message: Option<String> = match &self.message {
            None => None,
            Some(text) => Some(text.clone()),
        };
        PanelSnapshot {
            rows,
            total_matching: total,
            selected: self.selected,
            viewport_start: start,
            history_loading: self.show_history && !self.history_loaded,
            show_history: self.show_history,
            message,
        }
    }
}

/// Whether an item is one that the panel lists.
pub open spec fn to_be_listed(panel: PanelData, id: TrackedId) -> bool {
    wanted(panel, false, panel.show_history, id)
}

/// In an ordered list each agent stands at the place of its number.
pub proof fn lemma_agent_found(agents: Seq<AgentRun>, k: int)
    requires
        agents_ordered(agents),
        0 <= k < agents.len(),
    ensures
        agent_slot(agents, agents[k].id) == k,
{
    lemma_agent_slot(agents, agents[k].id);
    let slot = agent_slot(agents, agents[k].id);
    if slot < k {
        assert(agents[slot].id < agents[k].id);
        assert(agents[slot].id >= agents[k].id);
    }
}

/// In an ordered list each command stands at the place of its number.
pub proof fn lemma_process_found(processes: Seq<ProcessRun>, k: int)
    requires
        processes_ordered(processes),
        0 <= k < processes.len(),
    ensures
        process_slot(processes, processes[k].id) == k,
{
    lemma_process_slot(processes, processes[k].id);
    let slot = process_slot(processes, processes[k].id);
    if slot < k {
        assert(processes[slot].id < processes[k].id);
        assert(processes[slot].id >= processes[k].id);
    }
}

/// Whether an item is held and, where not all items are wanted, calls for
/// attention or is not acknowledged.
pub open spec fn wanted(
    panel: PanelData,
    all_agents: bool,
    all_processes: bool,
    id: TrackedId,
) -> bool {
    panel.holds(id) && match id {
        TrackedId::Agent(id) => all_agents || actionable(
            panel.agents@[agent_slot(panel.agents@, id)],
        ),
        TrackedId::Process(id) => all_processes
            || panel.processes@[process_slot(panel.processes@, id)].pending(),
    }
}

/// Whether an item stands before another: agents before commands, agents in the
/// order waiting, idle, working, done, newer ones first inside each status, and
/// commands newest first.
pub open spec fn stands_before(panel: PanelData, left: TrackedId, right: TrackedId) -> bool {
    match (left, right) {
        (TrackedId::Agent(left), TrackedId::Agent(right)) => agent_key(
            panel.agents@[agent_slot(panel.agents@, left)],
        ).leads(agent_key(panel.agents@[agent_slot(panel.agents@, right)])),
        (TrackedId::Process(left), TrackedId::Process(right)) => process_key(
            panel.processes@[process_slot(panel.processes@, left)],
        ).leads(process_key(panel.processes@[process_slot(panel.processes@, right)])),
        (TrackedId::Agent(_), TrackedId::Process(_)) => true,
        (TrackedId::Process(_), TrackedId::Agent(_)) => false,
    }
}

/// Exactly the wanted items are there.
proof fn lemma_items_exact(
    panel: PanelData,
    all_agents: bool,
    all_processes: bool,
    id: TrackedId,
)
    requires
        panel.wf(),
    ensures
        panel.items(all_agents, all_processes).contains(id) <==> wanted(
            panel,
            all_agents,
            all_processes,
            id,
        ),
{
    let ids = panel.items(all_agents, all_processes);
    let agents = agent_keys(panel.agents@, all_agents);
    let processes = process_keys(panel.processes@, all_processes);
    let first = agent_ids(agents);
    let second = process_ids(processes);
    sorted_keys(agents);
    sorted_keys(processes);
    if ids.contains(id) {
        let i = ids.index_of(id);
        if i < first.len() {
            let key = agents.sort_by(listing_order())[i];
            assert(agents.sort_by(listing_order()).contains(key));
            lemma_agent_keys(panel.agents@, all_agents, key);
            let k = choose|k: int|
                0 <= k < panel.agents@.len() && (all_agents || actionable(
                    #[trigger] panel.agents@[k],
                )) && agent_key(panel.agents@[k]) == key;
            lemma_agent_found(panel.agents@, k);
        } else {
            let key = processes.sort_by(listing_order())[i - first.len()];
            assert(second[i - first.len()] == id);
            assert(processes.sort_by(listing_order()).contains(key));
            lemma_process_keys(panel.processes@, all_processes, key);
            let k = choose|k: int|
                0 <= k < panel.processes@.len() && (all_processes || (
                #[trigger] panel.processes@[k]).pending()) && process_key(panel.processes@[k])
                    == key;
            lemma_process_found(panel.processes@, k);
        }
    }
    if wanted(panel, all_agents, all_processes, id) {
        match id {
            TrackedId::Agent(number) => {
                lemma_agent_slot(panel.agents@, number);
                let k = agent_slot(panel.agents@, number);
                let key = agent_key(panel.agents@[k]);
                lemma_agent_keys(panel.agents@, all_agents, key);
                assert(agents.sort_by(listing_order()).contains(key));
                let i = agents.sort_by(listing_order()).index_of(key);
                assert(ids[i] == id);
            },
            TrackedId::Process(number) => {
                lemma_process_slot(panel.processes@, number);
                let k = process_slot(panel.processes@, number);
                let key = process_key(panel.processes@[k]);
                lemma_process_keys(panel.processes@, all_processes, key);
                assert(processes.sort_by(listing_order()).contains(key));
                let i = processes.sort_by(listing_order()).index_of(key);
                assert(second[i] == id);
                assert(ids[first.len() + i] == id);
            },
        }
    }
}

/// The items stand in order, and none stands twice.
proof fn lemma_items_ordered(
    panel: PanelData,
    all_agents: bool,
    all_processes: bool,
    i: int,
    j: int,
)
    requires
        panel.wf(),
        0 <= i < j < panel.items(all_agents, all_processes).len(),
    ensures
        stands_before(
            panel,
            panel.items(all_agents, all_processes)[i],
            panel.items(all_agents, all_processes)[j],
        ),
        panel.items(all_agents, all_processes)[i] != panel.items(all_agents, all_processes)[j],
{
    let ids = panel.items(all_agents, all_processes);
    let agents = agent_keys(panel.agents@, all_agents);
    let processes = process_keys(panel.processes@, all_processes);
    let first = agent_ids(agents);
    let second = process_ids(processes);
    sorted_keys(agents);
    sorted_keys(processes);
    if j < first.len() {
        let left = agents.sort_by(listing_order())[i];
        let right = agents.sort_by(listing_order())[j];
        let (k, l) = lemma_distinct_agents(panel.agents@, all_agents, i, j);
        lemma_agent_found(panel.agents@, k);
        lemma_agent_found(panel.agents@, l);
        assert(left == agent_key(panel.agents@[k]) && right == agent_key(panel.agents@[l]));
        assert(listing_order()(left, right));
    } else if i >= first.len() {
        let left = processes.sort_by(listing_order())[i - first.len()];
        let right = processes.sort_by(listing_order())[j - first.len()];
        assert(second[i - first.len()] == ids[i]);
        assert(second[j - first.len()] == ids[j]);
        let (k, l) = lemma_distinct_processes(
            panel.processes@,
            all_processes,
            i - first.len(),
            j - first.len(),
        );
        lemma_process_found(panel.processes@, k);
        lemma_process_found(panel.processes@, l);
        assert(left == process_key(panel.processes@[k]) && right == process_key(
            panel.processes@[l],
        ));
        assert(listing_order()(left, right));
    }
}

/// The list holds exactly the items that are to be listed: agents that are
/// neither acknowledged nor killed, and commands that are not acknowledged or,
/// with history, all of them.
pub proof fn list_is_exact(panel: PanelData, id: TrackedId)
    requires
        panel.wf(),
    ensures
        panel.listing().contains(id) <==> to_be_listed(panel, id),
{
    lemma_items_exact(panel, false, panel.show_history, id);
}

/// Agents stand before commands. Agents stand in the order waiting, idle,
/// working, done, newer ones first inside each status; commands stand newest
/// first. No item stands twice.
pub proof fn list_is_in_order(panel: PanelData, i: int, j: int)
    requires
        panel.wf(),
        0 <= i < j < panel.listing().len(),
    ensures
        stands_before(panel, panel.listing()[i], panel.listing()[j]),
        panel.listing()[i] != panel.listing()[j],
{
    lemma_items_ordered(panel, false, panel.show_history, i, j);
}

/// The list of all items holds each agent and each command that the panel holds,
/// and nothing else.
pub proof fn everything_is_held(panel: PanelData, id: TrackedId)
    requires
        panel.wf(),
    ensures
        panel.everything().contains(id) <==> panel.holds(id),
{
    lemma_items_exact(panel, true, true, id);
}

/// The list of all items holds none of them twice, agents first, and stands in
/// the same order as the list.
pub proof fn everything_is_in_order(panel: PanelData, i: int, j: int)
    requires
        panel.wf(),
        0 <= i < j < panel.everything().len(),
    ensures
        stands_before(panel, panel.everything()[i], panel.everything()[j]),
        panel.everything()[i] != panel.everything()[j],
{
    lemma_items_ordered(panel, true, true, i, j);
}

/// The list is the list of all items without the hidden ones, in unchanged order:
/// without the agents that are killed or acknowledged and, unless history is
/// shown, without the acknowledged commands.
pub proof fn list_is_everything_but_the_hidden(panel: PanelData)
    requires
        panel.wf(),
    ensures
        panel.everything().no_duplicates(),
        panel.listing().no_duplicates(),
        panel.listing() == panel.everything().filter(|id: TrackedId| to_be_listed(panel, id)),
{
    let all = panel.everything();
    let ids = panel.listing();
    let shown = |id: TrackedId| to_be_listed(panel, id);
    let before = |left: TrackedId, right: TrackedId| stands_before(panel, left, right);
    assert forall|i: int, j: int| 0 <= i < j < all.len() implies before(
        #[trigger] all[i],
        #[trigger] all[j],
    ) && all[i] != all[j] by {
        everything_is_in_order(panel, i, j);
    }
    assert forall|i: int, j: int| 0 <= i < j < ids.len() implies before(
        #[trigger] ids[i],
        #[trigger] ids[j],
    ) && ids[i] != ids[j] by {
        list_is_in_order(panel, i, j);
    }
    let kept = all.filter(shown);
    filtering_keeps_order(all, shown, before);
    assert forall|id: TrackedId| ids.contains(id) <==> kept.contains(id) by {
        list_is_exact(panel, id);
        everything_is_held(panel, id);
    }
    assert forall|left: TrackedId, right: TrackedId| #[trigger]
        before(left, right) implies !before(right, left) by {}
    order_fixes_a_list(ids, kept, before);
}

/// Normalizing puts the selection on a listed item, wherever there is one, and
/// the view around it.
pub proof fn normalized_panels_are_settled(panel: PanelData)
    requires
        panel.listing().len() <= usize::MAX,
    ensures
        panel.normalized().settled(),
        panel.normalized().selected is Some <==> panel.listing().len() > 0,
        panel.normalized().listing() == panel.listing(),
{
    let ids = panel.listing();
    let after = panel.normalized();
    assert(after.listing() == ids);
    if ids.len() > 0 {
        lemma_nearest(panel.everything(), panel.selected->0, ids);
        assert(ids.contains(ids[0]));
        lemma_position_of(ids, after.selected->0);
    }
}

/// Normalizing again changes nothing.
pub proof fn normalizing_is_idempotent(panel: PanelData)
    requires
        panel.listing().len() <= usize::MAX,
    ensures
        panel.normalized().normalized() == panel.normalized(),
{
    normalized_panels_are_settled(panel);
    let once = panel.normalized();
    if panel.listing().len() > 0 {
        lemma_position_of(panel.listing(), once.selected->0);
    }
}

/// An agent that is hidden because it was acknowledged is still synchronized,
/// and is listed again once it has new work.
pub proof fn hidden_agents_reappear(agent: AgentRun)
    requires
        agent.acknowledged,
        agent.status == AgentStatus::Done,
    ensures
        !actionable(agent),
        agent.pending(),
        actionable(agent.observed(AgentStatus::Working, false)),
        actionable(agent.observed(AgentStatus::Waiting, false)),
{
}

/// A selected item that is still listed stays selected, wherever in the list it
/// now stands.
pub proof fn selection_survives(panel: PanelData, selected: TrackedId)
    requires
        panel.selected == Some(selected),
        panel.listing().contains(selected),
    ensures
        panel.normalized().selected == Some(selected),
{
}

/// A selected item that is no longer listed, and still held, hands the selection
/// to the listed item that is closest to it among all items; the earlier one of
/// two that are equally close.
pub proof fn selection_moves_to_the_closest(panel: PanelData, selected: TrackedId, i: int)
    requires
        panel.selected == Some(selected),
        !panel.listing().contains(selected),
        panel.everything().contains(selected),
        0 <= i < panel.listing().len(),
    ensures
        ({
            let all = panel.everything();
            let old = position(all, selected);
            exists|k: int|
                0 <= k < panel.listing().len() && panel.normalized().selected == Some(
                    #[trigger] panel.listing()[k],
                ) && distance(all, old, panel.listing()[k]) <= distance(
                    all,
                    old,
                    panel.listing()[i],
                ) && (i < k ==> distance(all, old, panel.listing()[k]) < distance(
                    all,
                    old,
                    panel.listing()[i],
                ))
        }),
{
    let all = panel.everything();
    let ids = panel.listing();
    lemma_position_of(all, selected);
    lemma_closest(all, position(all, selected), ids, ids.len() as int);
    let k = closest(all, position(all, selected), ids, ids.len() as int);
    assert(panel.normalized().selected == Some(ids[k]));
}

/// Two places of a sorted list are those of two different agents.
proof fn lemma_distinct_agents(runs: Seq<AgentRun>, all: bool, i: int, j: int) -> (r: (int, int))
    requires
        agents_ordered(runs),
        0 <= i < j < agent_keys(runs, all).len(),
    ensures
        0 <= r.0 < runs.len(),
        0 <= r.1 < runs.len(),
        r.0 != r.1,
        agent_key(runs[r.0]) == agent_keys(runs, all).sort_by(listing_order())[i],
        agent_key(runs[r.1]) == agent_keys(runs, all).sort_by(listing_order())[j],
{
    let keys = agent_keys(runs, all);
    let sorted = keys.sort_by(listing_order());
    sorted_keys(keys);
    lemma_agent_keys_distinct(runs, all);
    lemma_sorted_distinct(keys);
    assert(sorted.contains(sorted[i]));
    assert(sorted.contains(sorted[j]));
    lemma_agent_keys(runs, all, sorted[i]);
    lemma_agent_keys(runs, all, sorted[j]);
    let k = choose|k: int|
        0 <= k < runs.len() && (all || actionable(#[trigger] runs[k])) && agent_key(runs[k]) == sorted[i];
    let l = choose|k: int|
        0 <= k < runs.len() && (all || actionable(#[trigger] runs[k])) && agent_key(runs[k]) == sorted[j];
    (k, l)
}

proof fn lemma_agent_keys_distinct(runs: Seq<AgentRun>, all: bool)
    requires
        agents_ordered(runs),
    ensures
        agent_keys(runs, all).no_duplicates(),
    decreases runs.len(),
{
    if runs.len() > 0 {
        let shorter = runs.drop_last();
        let before = agent_keys(shorter, all);
        let keys = agent_keys(runs, all);
        lemma_agent_keys_distinct(shorter, all);
        assert forall|i: int, j: int| 0 <= i < j < keys.len() implies keys[i] != keys[j] by {
            if j == before.len() {
                assert(before.contains(keys[i]));
                lemma_agent_keys(shorter, all, keys[i]);
                let k = choose|k: int|
                    0 <= k < shorter.len() && (all || actionable(#[trigger] shorter[k])) && agent_key(
                        shorter[k],
                    ) == keys[i];
                assert(runs[k].id < runs[runs.len() - 1].id);
            }
        }
    }
}

/// Two places of a sorted list are those of two different commands.
proof fn lemma_distinct_processes(runs: Seq<ProcessRun>, all: bool, i: int, j: int) -> (r: (int, int))
    requires
        processes_ordered(runs),
        0 <= i < j < process_keys(runs, all).len(),
    ensures
        0 <= r.0 < runs.len(),
        0 <= r.1 < runs.len(),
        r.0 != r.1,
        process_key(runs[r.0]) == process_keys(runs, all).sort_by(listing_order())[i],
        process_key(runs[r.1]) == process_keys(runs, all).sort_by(listing_order())[j],
{
    let keys = process_keys(runs, all);
    let sorted = keys.sort_by(listing_order());
    sorted_keys(keys);
    lemma_process_keys_distinct(runs, all);
    lemma_sorted_distinct(keys);
    assert(sorted.contains(sorted[i]));
    assert(sorted.contains(sorted[j]));
    lemma_process_keys(runs, all, sorted[i]);
    lemma_process_keys(runs, all, sorted[j]);
    let k = choose|k: int|
        0 <= k < runs.len() && (all || (#[trigger] runs[k]).pending()) && process_key(runs[k]) == sorted[i];
    let l = choose|k: int|
        0 <= k < runs.len() && (all || (#[trigger] runs[k]).pending()) && process_key(runs[k]) == sorted[j];
    (k, l)
}

proof fn lemma_process_keys_distinct(runs: Seq<ProcessRun>, all: bool)
    requires
        processes_ordered(runs),
    ensures
        process_keys(runs, all).no_duplicates(),
    decreases runs.len(),
{
    if runs.len() > 0 {
        let shorter = runs.drop_last();
        let before = process_keys(shorter, all);
        let keys = process_keys(runs, all);
        lemma_process_keys_distinct(shorter, all);
        assert forall|i: int, j: int| 0 <= i < j < keys.len() implies keys[i] != keys[j] by {
            if j == before.len() {
                assert(before.contains(keys[i]));
                lemma_process_keys(shorter, all, keys[i]);
                let k = choose|k: int|
                    0 <= k < shorter.len() && (all || (#[trigger] shorter[k]).pending()) && process_key(
                        shorter[k],
                    ) == keys[i];
                assert(runs[k].id < runs[runs.len() - 1].id);
            }
        }
    }
}

proof fn lemma_sorted_distinct(keys: Seq<Key>)
    requires
        keys.no_duplicates(),
    ensures
        keys.sort_by(listing_order()).no_duplicates(),
{
    let sorted = keys.sort_by(listing_order());
    sorted_multiset(keys);
    keys.lemma_multiset_has_no_duplicates();
    sorted.lemma_multiset_has_no_duplicates_conv();
}

} // verus!
