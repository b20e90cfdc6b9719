//! What the list of the panel holds, in which order, and what of it is shown.

use vstd::prelude::*;

use crate::agent::{AgentRun, AgentStatus};
use crate::panel::{
    agent_slot, has_agent, has_process, lemma_agent_found, lemma_agent_slot, lemma_process_found,
    lemma_process_slot, list_is_exact, list_is_in_order, position, process_slot, scrolled,
    PanelData, PanelSnapshot, TrackedId, TrackedSnapshot,
};
use crate::process::ProcessRun;

verus! {

/// Whether an agent stands among others under its number.
pub open spec fn is_agent(panel: PanelData, id: i64, agent: AgentRun) -> bool {
    agent.id == id && exists|k: int|
        0 <= k < panel.agents@.len() && #[trigger] panel.agents@[k] == agent
}

/// Whether a command stands among others under its number.
pub open spec fn is_process(panel: PanelData, id: i64, process: ProcessRun) -> bool {
    process.id == id && exists|k: int|
        0 <= k < panel.processes@.len() && #[trigger] panel.processes@[k] == process
}

proof fn lemma_is_agent(panel: PanelData, id: i64, agent: AgentRun)
    requires
        panel.wf(),
        is_agent(panel, id, agent),
    ensures
        has_agent(panel.agents@, id),
        panel.agents@[agent_slot(panel.agents@, id)] == agent,
{
    let k = choose|k: int| 0 <= k < panel.agents@.len() && #[trigger] panel.agents@[k] == agent;
    lemma_agent_found(panel.agents@, k);
}

proof fn lemma_is_process(panel: PanelData, id: i64, process: ProcessRun)
    requires
        panel.wf(),
        is_process(panel, id, process),
    ensures
        has_process(panel.processes@, id),
        panel.processes@[process_slot(panel.processes@, id)] == process,
{
    let k = choose|k: int|
        0 <= k < panel.processes@.len() && #[trigger] panel.processes@[k] == process;
    lemma_process_found(panel.processes@, k);
}

/// An agent is listed exactly where it is neither killed nor acknowledged, and a command
/// exactly where it is not acknowledged or the history is shown.
pub proof fn the_list_holds_what_calls_for_attention(
    panel: PanelData,
    agent: AgentRun,
    process: ProcessRun,
)
    requires
        panel.wf(),
        is_agent(panel, agent.id, agent),
        is_process(panel, process.id, process),
    ensures
        panel.listing().contains(TrackedId::Agent(agent.id)) <==> agent.status
            != AgentStatus::Killed && !agent.acknowledged,
        panel.listing().contains(TrackedId::Process(process.id)) <==> panel.show_history || !(
        process.state is Acknowledged),
{
    lemma_is_agent(panel, agent.id, agent);
    lemma_is_process(panel, process.id, process);
    list_is_exact(panel, TrackedId::Agent(agent.id));
    list_is_exact(panel, TrackedId::Process(process.id));
}

/// Nothing is listed that the panel does not hold.
pub proof fn the_list_holds_nothing_else(panel: PanelData, id: TrackedId)
    requires
        panel.wf(),
        panel.listing().contains(id),
    ensures
        match id {
            TrackedId::Agent(number) => exists|agent: AgentRun| #[trigger]
                is_agent(panel, number, agent),
            TrackedId::Process(number) => exists|process: ProcessRun| #[trigger]
                is_process(panel, number, process),
        },
{
    list_is_exact(panel, id);
    match id {
        TrackedId::Agent(number) => {
            lemma_agent_slot(panel.agents@, number);
            let agent = panel.agents@[agent_slot(panel.agents@, number)];
            assert(is_agent(panel, number, agent));
        },
        TrackedId::Process(number) => {
            lemma_process_slot(panel.processes@, number);
            let process = panel.processes@[process_slot(panel.processes@, number)];
            assert(is_process(panel, number, process));
        },
    }
}

/// How much a status calls for attention: an agent that waits the most, one that is done
/// the least.
pub open spec fn rank(status: AgentStatus) -> int {
    match status {
        AgentStatus::Waiting => 0,
        AgentStatus::Idle => 1,
        AgentStatus::Working => 2,
        AgentStatus::Done => 3,
        AgentStatus::Killed => 4,
    }
}

/// In the list agents stand before commands. Agents stand in the order waiting, idle,
/// working, done, and within a status the younger before the older; commands stand
/// the younger before the older.
pub proof fn the_list_is_in_order(
    panel: PanelData,
    i: int,
    j: int,
    left_agent: AgentRun,
    right_agent: AgentRun,
    left_process: ProcessRun,
    right_process: ProcessRun,
)
    requires
        panel.wf(),
        0 <= i < j < panel.listing().len(),
        panel.listing()[i] matches TrackedId::Agent(id) ==> is_agent(panel, id, left_agent),
        panel.listing()[j] matches TrackedId::Agent(id) ==> is_agent(panel, id, right_agent),
        panel.listing()[i] matches TrackedId::Process(id) ==> is_process(panel, id, left_process),
        panel.listing()[j] matches TrackedId::Process(id) ==> is_process(panel, id, right_process),
    ensures
        panel.listing()[i] != panel.listing()[j],
        panel.listing()[i] is Process ==> panel.listing()[j] is Process,
        panel.listing()[i] is Agent && panel.listing()[j] is Agent ==> {
            ||| rank(left_agent.status) < rank(right_agent.status)
            ||| left_agent.status == right_agent.status && left_agent.started_at.nanos
                > right_agent.started_at.nanos
            ||| left_agent.status == right_agent.status && left_agent.started_at.nanos
                == right_agent.started_at.nanos && left_agent.id > right_agent.id
        },
        panel.listing()[i] is Process && panel.listing()[j] is Process ==> {
            ||| left_process.started_at.nanos > right_process.started_at.nanos
            ||| left_process.started_at.nanos == right_process.started_at.nanos && left_process.id
                > right_process.id
        },
{
    list_is_in_order(panel, i, j);
    match (panel.listing()[i], panel.listing()[j]) {
        (TrackedId::Agent(left), TrackedId::Agent(right)) => {
            lemma_is_agent(panel, left, left_agent);
            lemma_is_agent(panel, right, right_agent);
        },
        (TrackedId::Process(left), TrackedId::Process(right)) => {
            lemma_is_process(panel, left, left_process);
            lemma_is_process(panel, right, right_process);
        },
        _ => {},
    }
}

proof fn lemma_first_position(ids: Seq<TrackedId>, k: int)
    requires
        0 <= k < ids.len(),
        forall|j: int| 0 <= j < ids.len() && j != k ==> #[trigger] ids[j] != ids[k],
    ensures
        position(ids, ids[k]) == k,
    decreases ids.len(),
{
    let last = ids.len() - 1;
    let shorter = ids.drop_last();
    if k < last {
        assert(shorter[k] == ids[k]);
        assert forall|j: int| 0 <= j < shorter.len() && j != k implies #[trigger] shorter[j]
            != shorter[k] by {
            assert(shorter[j] == ids[j]);
        }
        lemma_first_position(shorter, k);
    } else {
        lemma_no_position(shorter, ids[k]);
    }
}

proof fn lemma_no_position(ids: Seq<TrackedId>, id: TrackedId)
    requires
        forall|j: int| 0 <= j < ids.len() ==> #[trigger] ids[j] != id,
    ensures
        position(ids, id) == ids.len(),
    decreases ids.len(),
{
    if ids.len() > 0 {
        let shorter = ids.drop_last();
        assert forall|j: int| 0 <= j < shorter.len() implies #[trigger] shorter[j] != id by {
            assert(shorter[j] == ids[j]);
        }
        lemma_no_position(shorter, id);
        assert(ids[ids.len() - 1] != id);
    }
}

/// Moving the selection by a number of rows moves it by that number in the list, and to
/// the first or the last item where the list ends before. Where nothing that is listed
/// was selected, it is moved from the first item.
pub proof fn the_selection_moves_by_rows(panel: PanelData, k: int, delta: int)
    requires
        panel.wf(),
        0 <= k < panel.listing().len(),
        panel.selected == Some(panel.listing()[k]) || (panel.selected is None && k == 0),
    ensures
        0 <= k + delta < panel.listing().len() ==> panel.moved(delta).selected == Some(
            panel.listing()[k + delta],
        ),
        k + delta < 0 ==> panel.moved(delta).selected == Some(panel.listing()[0]),
        k + delta >= panel.listing().len() ==> panel.moved(delta).selected == Some(
            panel.listing().last(),
        ),
        panel.moved(delta).agents == panel.agents,
        panel.moved(delta).processes == panel.processes,
        panel.moved(delta).show_history == panel.show_history,
{
    let ids = panel.listing();
    assert forall|j: int| 0 <= j < ids.len() && j != k implies #[trigger] ids[j] != ids[k] by {
        if j < k {
            list_is_in_order(panel, j, k);
        } else {
            list_is_in_order(panel, k, j);
        }
    }
    lemma_first_position(ids, k);
    assert(ids.contains(ids[k]));
}

/// A view is moved so that the row is in it, no further than needed, and not below the
/// last row.
pub proof fn views_follow_the_row(index: int, total: int, start: int, len: int)
    requires
        0 <= index < total,
        0 <= start,
        0 < len,
    ensures
        ({
            let moved = scrolled(index, total, start, len);
            &&& 0 <= moved <= index < moved + len
            &&& total >= len ==> moved + len <= total
            &&& total < len ==> moved == 0
            &&& start <= index < start + len && start + len <= total ==> moved == start
            &&& index < start && start + len <= total ==> moved == index
            &&& index >= start + len && start + len <= total ==> moved + len == index + 1
        }),
{
}

/// A picture shows the rows of the list from the start of the view on, as many as there
/// is room for, each with what is known of its item.
pub proof fn pictures_show_the_view(panel: PanelData, picture: PanelSnapshot, k: int)
    requires
        panel.wf(),
        panel.pictured(picture),
        panel.viewport_start <= panel.listing().len(),
    ensures
        picture.total_matching == panel.listing().len(),
        picture.selected == panel.selected,
        picture.viewport_start == panel.viewport_start,
        picture.show_history == panel.show_history,
        picture.history_loading <==> panel.show_history && !panel.history_loaded,
        picture.message == panel.message,
        picture.rows@.len() <= panel.viewport_len,
        panel.viewport_start + picture.rows@.len() <= panel.listing().len(),
        picture.rows@.len() == panel.viewport_len || panel.viewport_start + picture.rows@.len()
            == panel.listing().len(),
        0 <= k < picture.rows@.len() ==> match (picture.rows@[k], panel.listing()[panel.viewport_start
            + k]) {
            (TrackedSnapshot::Agent(row), TrackedId::Agent(id)) => exists|agent: AgentRun| #[trigger]
                is_agent(panel, id, agent) && row.id == id && row.kind == agent.kind && row.status
                    == agent.status && row.acknowledged == agent.acknowledged && row.started_at
                    == agent.started_at,
            (TrackedSnapshot::Process(row), TrackedId::Process(id)) => exists|process: ProcessRun|
                #[trigger]
                is_process(panel, id, process) && row.id == id && row.label == process.label
                    && row.state == process.state && row.started_at == process.started_at,
            _ => false,
        },
{
    let ids = panel.listing();
    if 0 <= k < picture.rows@.len() {
        let id = ids[panel.viewport_start + k];
        assert(ids.subrange(panel.view_start(), panel.view_end())[k] == id);
        assert(picture.rows@[k] == panel.row_of(id));
        assert(ids.contains(id));
        list_is_exact(panel, id);
        match id {
            TrackedId::Agent(number) => {
                lemma_agent_slot(panel.agents@, number);
                let agent = panel.agents@[agent_slot(panel.agents@, number)];
                assert(is_agent(panel, number, agent));
            },
            TrackedId::Process(number) => {
                lemma_process_slot(panel.processes@, number);
                let process = panel.processes@[process_slot(panel.processes@, number)];
                assert(is_process(panel, number, process));
            },
        }
    }
}

} // verus!
