//! What keys, requests and events of the panel come to.

use vstd::prelude::*;
use vstd::string::*;

use crate::agent::{AgentSnapshot, AgentStatus};
use crate::error::Error;
use crate::orchestrator::{first_step, NavigationStage, NavigationStep};
use crate::panel::{PanelSnapshot, TrackedId, TrackedSnapshot};
use crate::process::{ProcessSnapshot, ProcessState};
use crate::screen::{
    agent_cells, agent_rows, centered, clipped, consumed, footer_text, marks_agent, marks_process,
    popup_length, process_cells, process_rows, question_text, DeletePrompt, KeyPress, Panel,
    Reaction,
};
use crate::storage::Job;
use crate::text::{numeral, signed, texts};
use crate::time::{clock_text, Timestamp};
use crate::worker::{
    PanelEvent, PanelRequest, Work, Worker, HISTORY_STEP, REDRAW, REFRESH,
};

verus! {

/// A removal is asked for only by `y` or `Y` while it is in question, and it is the
/// removal of the item in question. No other key leads to one.
pub proof fn only_consent_removes(
    panel: Panel,
    key: KeyPress,
    client: Option<String>,
    after: Panel,
    r: Reaction,
)
    requires
        panel.reacts(key, client, after, r),
    ensures
        r matches Reaction::Send(PanelRequest::Delete(target)) ==> (key == KeyPress::Char('y')
            || key == KeyPress::Char('Y')) && panel.delete_prompt is Some && target
            == panel.delete_prompt->0.target,
        panel.delete_prompt is Some && (key == KeyPress::Char('y') || key == KeyPress::Char('Y'))
            ==> r matches Reaction::Send(PanelRequest::Delete(_)),
{
}

/// A question stays until it is answered: it is closed by `y`, `n` and escape, in
/// upper case or lower case, and by no other key. Until then nothing is sent but the
/// removal, and `q` still ends the panel.
pub proof fn questions_stay_until_answered(
    panel: Panel,
    key: KeyPress,
    client: Option<String>,
    after: Panel,
    r: Reaction,
)
    requires
        panel.delete_prompt is Some,
        panel.reacts(key, client, after, r),
    ensures
        after.delete_prompt is None <==> key == KeyPress::Char('y') || key == KeyPress::Char('Y')
            || key == KeyPress::Char('n') || key == KeyPress::Char('N') || key == KeyPress::Esc,
        after.delete_prompt is Some ==> after == panel,
        r is Quit <==> key == KeyPress::Char('q'),
        r matches Reaction::Send(request) ==> request is Delete,
{
}

/// No key changes what is shown, but for the question that it answers.
pub proof fn keys_change_nothing_else(
    panel: Panel,
    key: KeyPress,
    client: Option<String>,
    after: Panel,
    r: Reaction,
)
    requires
        panel.reacts(key, client, after, r),
    ensures
        after.snapshot == panel.snapshot,
        after.agent_row == panel.agent_row,
        after.process_row == panel.process_row,
        panel.delete_prompt is None ==> after.delete_prompt is None,
{
}

/// What keys do while nothing is in question: `q` and escape end the panel, arrows and
/// `j` and `k` move the selection by one, `h` shows or hides the history, enter asks for
/// the focus of the selected item, and no other key does anything.
pub proof fn keys_do_what_they_are_for(
    panel: Panel,
    key: KeyPress,
    client: Option<String>,
    after: Panel,
    r: Reaction,
)
    requires
        panel.delete_prompt is None,
        panel.reacts(key, client, after, r),
    ensures
        r is Quit <==> key == KeyPress::Char('q') || key == KeyPress::Esc,
        (r matches Reaction::Send(PanelRequest::MoveSelection(delta)) && delta == 1) <==> key
            == KeyPress::Down || key == KeyPress::Char('j'),
        (r matches Reaction::Send(PanelRequest::MoveSelection(delta)) && delta == -1) <==> key
            == KeyPress::Up || key == KeyPress::Char('k'),
        r matches Reaction::Send(PanelRequest::MoveSelection(delta)) ==> delta == 1 || delta == -1,
        (r matches Reaction::Send(PanelRequest::ToggleHistory)) <==> key == KeyPress::Char('h'),
        (r matches Reaction::Send(PanelRequest::Focus { .. })) <==> key == KeyPress::Enter
            && panel.snapshot.selected is Some,
        r matches Reaction::Send(PanelRequest::Focus { target, .. }) ==> Some(target)
            == panel.snapshot.selected,
        !(r matches Reaction::Send(PanelRequest::Resize(_))),
        !(r matches Reaction::Send(PanelRequest::Shutdown)),
{
}

/// A focus that a key asks for goes through the client of the panel where it has one:
/// tmux takes its arguments, and switches that client.
pub proof fn focus_goes_through_the_client_of_the_panel(
    panel: Panel,
    client: Option<String>,
    after: Panel,
    r: Reaction,
    step: NavigationStep,
)
    requires
        panel.delete_prompt is None,
        panel.snapshot.selected is Some,
        client matches Some(name) ==> name@.len() > 0,
        panel.reacts(KeyPress::Enter, client, after, r),
        r matches Reaction::Send(PanelRequest::Focus { args, .. }) ==> first_step(args@, step),
    ensures
        step matches NavigationStep::Run { stage: NavigationStage::Listing { client: chosen }, .. }
            && match (client, chosen) {
            (Some(name), Some(other)) => other@ == name@,
            (None, None) => true,
            _ => false,
        },
{
    reveal_strlit("--client");
    reveal_strlit("--client=");
    let args = r->Send_0->args@;
    assert(texts(args).len() == args.len());
}

/// The item that was reached ends the panel, and nothing else that is told does.
pub proof fn only_arrivals_end_the_panel(panel: Panel, events: Seq<PanelEvent>)
    ensures
        consumed(panel, events).2 <==> exists|i: int|
            0 <= i < events.len() && (#[trigger] events[i]) is Focused,
    decreases events.len(),
{
    if events.len() > 0 {
        let shorter = events.drop_last();
        only_arrivals_end_the_panel(panel, shorter);
        if consumed(panel, shorter).2 {
            let i = choose|i: int| 0 <= i < shorter.len() && (#[trigger] shorter[i]) is Focused;
            assert(events[i] is Focused);
        }
        if events.last() is Focused {
            assert(events[events.len() - 1] is Focused);
        }
        if exists|i: int| 0 <= i < events.len() && (#[trigger] events[i]) is Focused {
            let i = choose|i: int| 0 <= i < events.len() && (#[trigger] events[i]) is Focused;
            if i < shorter.len() {
                assert(shorter[i] is Focused);
            }
        }
    }
}

/// A removal comes into question exactly by the failure to reach an item, and it is
/// that item's, with the reason of the failure; the last failure counts.
pub proof fn failures_raise_the_question(panel: Panel, events: Seq<PanelEvent>, i: int)
    ensures
        (forall|j: int| 0 <= j < events.len() ==> !((#[trigger] events[j]) is FocusFailed))
            ==> consumed(panel, events).0.delete_prompt == panel.delete_prompt,
        0 <= i < events.len() && events[i] is FocusFailed && (forall|j: int|
            i < j < events.len() ==> !((#[trigger] events[j]) is FocusFailed)) ==> (consumed(
            panel,
            events,
        ).0.delete_prompt matches Some(prompt) && prompt.target == events[i]->target
            && prompt.error == events[i]->message),
    decreases events.len(),
{
    if events.len() > 0 {
        let shorter = events.drop_last();
        failures_raise_the_question(panel, shorter, i);
        assert(forall|j: int| 0 <= j < shorter.len() ==> #[trigger] shorter[j] == events[j]);
        let last = events[events.len() - 1];
        if !(last is FocusFailed) {
            assert(consumed(panel, events).0.delete_prompt == consumed(
                panel,
                shorter,
            ).0.delete_prompt);
        }
        if forall|j: int| 0 <= j < events.len() ==> !((#[trigger] events[j]) is FocusFailed) {
            assert(!(last is FocusFailed));
        }
        if 0 <= i < events.len() - 1 && (forall|j: int|
            i < j < events.len() ==> !((#[trigger] events[j]) is FocusFailed)) {
            assert(!(last is FocusFailed));
        }
    }
}

/// The picture that is shown at the end is the last one that was told of, and the
/// message on it is that of the last failure behind it.
pub proof fn the_last_picture_is_shown(panel: Panel, events: Seq<PanelEvent>, i: int)
    requires
        0 <= i < events.len(),
        events[i] is Updated,
        forall|j: int| i < j < events.len() ==> !((#[trigger] events[j]) is Updated),
    ensures
        consumed(panel, events).1 matches Some(picture) && picture == (PanelSnapshot {
            message: picture.message,
            ..events[i]->Updated_0
        }),
        (forall|j: int| i < j < events.len() ==> (#[trigger] events[j]) is Focused) ==> consumed(
            panel,
            events,
        ).1 == Some(events[i]->Updated_0),
        events.last() matches PanelEvent::Failed(text) ==> consumed(
            panel,
            events,
        ).1->0.message == Some(text),
        events.last() matches PanelEvent::FocusFailed { message, .. } ==> consumed(
            panel,
            events,
        ).1->0.message == Some(message),
    decreases events.len(),
{
    let shorter = events.drop_last();
    let last = events[events.len() - 1];
    if i < events.len() - 1 {
        assert(shorter[i] == events[i]);
        assert(forall|j: int| 0 <= j < shorter.len() ==> #[trigger] shorter[j] == events[j]);
        the_last_picture_is_shown(panel, shorter, i);
        assert(!(last is Updated));
    }
}

/// The marked row of each table is that of the selected item: an agent is marked in
/// the table of agents alone, a command in the table of commands alone.
pub proof fn marks_are_on_the_selected_item(
    rows: Seq<TrackedSnapshot>,
    selected: Option<TrackedId>,
    agent_row: Option<usize>,
    process_row: Option<usize>,
)
    requires
        marks_agent(rows, selected, agent_row),
        marks_process(rows, selected, process_row),
    ensures
        agent_row matches Some(k) ==> selected == Some(
            TrackedId::Agent(agent_rows(rows)[k as int].id),
        ),
        process_row matches Some(k) ==> selected == Some(
            TrackedId::Process(process_rows(rows)[k as int].id),
        ),
        agent_row is None ==> forall|k: int|
            0 <= k < agent_rows(rows).len() ==> selected != Some(
                TrackedId::Agent((#[trigger] agent_rows(rows)[k]).id),
            ),
        process_row is None ==> forall|k: int|
            0 <= k < process_rows(rows).len() ==> selected != Some(
                TrackedId::Process((#[trigger] process_rows(rows)[k]).id),
            ),
        agent_row is Some ==> process_row is None,
        selected is None ==> agent_row is None && process_row is None,
{
}

/// The rows of the picture are parted into the two tables, and none is lost.
pub proof fn tables_hold_all_rows(rows: Seq<TrackedSnapshot>)
    ensures
        agent_rows(rows).len() + process_rows(rows).len() == rows.len(),
        forall|i: int|
            0 <= i < rows.len() ==> match #[trigger] rows[i] {
                TrackedSnapshot::Agent(agent) => agent_rows(rows).contains(agent),
                TrackedSnapshot::Process(process) => process_rows(rows).contains(process),
            },
    decreases rows.len(),
{
    if rows.len() > 0 {
        let shorter = rows.drop_last();
        tables_hold_all_rows(shorter);
        assert forall|i: int| 0 <= i < rows.len() implies match #[trigger] rows[i] {
            TrackedSnapshot::Agent(agent) => agent_rows(rows).contains(agent),
            TrackedSnapshot::Process(process) => process_rows(rows).contains(process),
        } by {
            if i < shorter.len() {
                assert(shorter[i] == rows[i]);
                match rows[i] {
                    TrackedSnapshot::Agent(agent) => {
                        let k = agent_rows(shorter).index_of(agent);
                        assert(agent_rows(rows)[k] == agent);
                    },
                    TrackedSnapshot::Process(process) => {
                        let k = process_rows(shorter).index_of(process);
                        assert(process_rows(rows)[k] == process);
                    },
                }
            } else {
                match rows[i] {
                    TrackedSnapshot::Agent(agent) => {
                        assert(agent_rows(rows).last() == agent);
                    },
                    TrackedSnapshot::Process(process) => {
                        assert(process_rows(rows).last() == process);
                    },
                }
            }
        }
    }
}

/// What the cells of an agent say, in the order of the header: what it is, its status,
/// how long it has been there, and where it was started.
pub proof fn agents_are_drawn_as_they_are(agent: AgentSnapshot, now: Timestamp)
    ensures
        agent_cells(agent, now).len() == 4,
        agent_cells(agent, now)[0] == agent.kind@,
        agent_cells(agent, now)[1] == match agent.status {
            AgentStatus::Idle => "idle"@,
            AgentStatus::Working => "working"@,
            AgentStatus::Waiting => "waiting"@,
            AgentStatus::Done => "done"@,
            AgentStatus::Killed => "killed"@,
        },
        now.nanos >= agent.started_at.nanos ==> agent_cells(agent, now)[2] == clock_text(
            ((now.nanos - agent.started_at.nanos) / 1_000_000_000) as nat,
        ),
        now.nanos < agent.started_at.nanos ==> agent_cells(agent, now)[2] == clock_text(0),
        agent_cells(agent, now)[3] == match agent.orchestrator {
            crate::orchestrator::OrchestratorSnapshot::Shell { cwd } => cwd@,
            crate::orchestrator::OrchestratorSnapshot::Tmux { cwd, .. } => cwd@,
        },
{
}

/// What the cells of a command say, in the order of the header: its label, how it came
/// out, its exit status, how long it took, and where it was started.
pub proof fn commands_are_drawn_as_they_are(process: ProcessSnapshot, now: Timestamp)
    ensures
        process_cells(process, now).len() == 5,
        process_cells(process, now)[0] == process.label@,
        match process.state {
            ProcessState::Running => {
                &&& process_cells(process, now)[1] == "running"@
                &&& process_cells(process, now)[2] == "-"@
                &&& now.nanos >= process.started_at.nanos ==> process_cells(process, now)[3]
                    == clock_text(((now.nanos - process.started_at.nanos) / 1_000_000_000) as nat)
            },
            ProcessState::Finished { finished_at, exit_status } => {
                &&& process_cells(process, now)[1] == if exit_status == 0 {
                    "succeeded"@
                } else {
                    "failed/"@ + numeral(exit_status as nat)
                }
                &&& process_cells(process, now)[2] == numeral(exit_status as nat)
                &&& finished_at.nanos >= process.started_at.nanos ==> process_cells(process, now)[3]
                    == clock_text(
                    ((finished_at.nanos - process.started_at.nanos) / 1_000_000_000) as nat,
                )
            },
            ProcessState::Acknowledged { finished_at, exit_status } => {
                &&& process_cells(process, now)[1] == if exit_status == 0 {
                    "succeeded"@
                } else {
                    "failed/"@ + numeral(exit_status as nat)
                }
                &&& process_cells(process, now)[2] == numeral(exit_status as nat)
                &&& finished_at.nanos >= process.started_at.nanos ==> process_cells(process, now)[3]
                    == clock_text(
                    ((finished_at.nanos - process.started_at.nanos) / 1_000_000_000) as nat,
                )
            },
        },
        process_cells(process, now)[4] == match process.orchestrator {
            crate::orchestrator::OrchestratorSnapshot::Shell { cwd } => cwd@,
            crate::orchestrator::OrchestratorSnapshot::Tmux { cwd, .. } => cwd@,
        },
{
}

/// What is asked before an item is removed: why it could not be reached, what kind of
/// item it is, and its number.
pub proof fn questions_name_the_item(id: i64, error: String)
    ensures
        question_text(DeletePrompt { target: TrackedId::Agent(id), error }) == "Navigation failed: "@
            + error@ + "\n\nDelete agent "@ + signed(id as int) + " from the database? (y/N)"@,
        question_text(DeletePrompt { target: TrackedId::Process(id), error })
            == "Navigation failed: "@ + error@ + "\n\nDelete process "@ + signed(id as int)
            + " from the database? (y/N)"@,
{
    reveal_strlit("\n\nDelete ");
    reveal_strlit("agent");
    reveal_strlit("process");
    reveal_strlit(" ");
    reveal_strlit("\n\nDelete agent ");
    reveal_strlit("\n\nDelete process ");
    assert("\n\nDelete "@ + "agent"@ + " "@ =~= "\n\nDelete agent "@);
    assert("\n\nDelete "@ + "process"@ + " "@ =~= "\n\nDelete process "@);
    let start = "Navigation failed: "@ + error@;
    assert(question_text(DeletePrompt { target: TrackedId::Agent(id), error }) =~= start + (
    "\n\nDelete "@ + "agent"@ + " "@) + signed(id as int) + " from the database? (y/N)"@);
    assert(question_text(DeletePrompt { target: TrackedId::Process(id), error }) =~= start + (
    "\n\nDelete "@ + "process"@ + " "@) + signed(id as int) + " from the database? (y/N)"@);
}

/// What the status line says: an error where there is one, else how many items there
/// are, whether acknowledged commands are among them, and which of them are shown.
pub proof fn the_status_line_counts(picture: PanelSnapshot)
    ensures
        picture.message matches Some(message) ==> footer_text(picture) == "error: "@ + message@,
        picture.message is None ==> ({
            let shown = if picture.rows@.len() == 0 {
                "0"@
            } else {
                numeral((picture.viewport_start + 1) as nat) + "-"@ + numeral(
                    (picture.viewport_start + picture.rows@.len()) as nat,
                )
            };
            let list = if picture.show_history {
                " tracked (all)"@
            } else {
                " tracked (unacked)"@
            };
            footer_text(picture) == "worklight: "@ + numeral(picture.total_matching as nat) + list
                + (if picture.history_loading {
                " (loading history), showing "@
            } else {
                ", showing "@
            }) + shown
        }),
{
    reveal_strlit(" tracked (");
    reveal_strlit("all");
    reveal_strlit("unacked");
    reveal_strlit(")");
    reveal_strlit("");
    reveal_strlit(" (loading history)");
    reveal_strlit(", showing ");
    reveal_strlit(" tracked (all)");
    reveal_strlit(" tracked (unacked)");
    reveal_strlit(" (loading history), showing ");
    let start = "worklight: "@ + numeral(picture.total_matching as nat);
    assert(" tracked ("@ + "all"@ + ")"@ =~= " tracked (all)"@);
    assert(" tracked ("@ + "unacked"@ + ")"@ =~= " tracked (unacked)"@);
    assert(" (loading history)"@ + ", showing "@ =~= " (loading history), showing "@);
    assert(""@ + ", showing "@ =~= ", showing "@);
    if picture.message is None {
        let list = " tracked ("@ + (if picture.show_history {
            "all"@
        } else {
            "unacked"@
        }) + ")"@;
        let tail = (if picture.history_loading {
            " (loading history)"@
        } else {
            ""@
        }) + ", showing "@;
        let shown = crate::screen::range_text(picture.viewport_start as nat, picture.rows@.len());
        assert(footer_text(picture) =~= start + list + tail + shown);
    }
}

/// A popup lies within its region, with a border around it where there is room, no
/// larger than preferred, and as far from one side as from the other.
pub proof fn popups_lie_in_the_middle(start: u16, available: u16, preferred: u16)
    requires
        preferred >= 1,
        available >= 3,
        start + available <= u16::MAX,
    ensures
        ({
            let length = popup_length(preferred, available);
            let at = centered(start, available, length);
            &&& 1 <= length <= preferred
            &&& length == preferred || length == available - 2
            &&& start < at && at + length < start + available
            &&& 0 <= (start + available - (at + length)) - (at - start) <= 1
            &&& clipped(at, length) == length
        }),
{
}

/// A removal that is asked for is carried out on that very item, and in a dry run on
/// none.
pub proof fn removals_are_of_the_item(worker: Worker, target: TrackedId, after: Worker, r: Work)
    requires
        worker.accepts(PanelRequest::Delete(target), after, r),
    ensures
        worker.data.dry_run <==> !(r is Delete),
        r matches Work::Delete { target: item, job } ==> item == target && match target {
            TrackedId::Agent(id) => job == (Job::DeleteAgent { id }),
            TrackedId::Process(id) => job == (Job::DeleteProcess { id }),
        },
        after.data.agents == worker.data.agents && after.data.processes == worker.data.processes,
{
}

/// Nothing but a request to remove an item leads to a removal, and nothing but a
/// request to stop ends the worker.
pub proof fn work_is_what_was_asked_for(
    worker: Worker,
    request: PanelRequest,
    after: Worker,
    r: Work,
)
    requires
        worker.accepts(request, after, r),
    ensures
        r is Delete ==> request is Delete,
        r is Stop <==> request is Shutdown,
        r is LatestProcess ==> request is ToggleHistory,
        r is Focus ==> request is Focus,
        r matches Work::Focus { target, .. } ==> target == request->target,
        after.next_refresh == worker.next_refresh,
        after.next_history == worker.next_history,
        after.history_retry == worker.history_retry,
{
    match request {
        PanelRequest::Focus { target, args } => {
            match target {
                TrackedId::Agent(_) => {},
                TrackedId::Process(_) => {},
            }
        },
        _ => {},
    }
}

/// Opening, moving, resizing and the history acknowledge nothing: no such request
/// changes an item, or asks for anything to be written.
pub proof fn looking_acknowledges_nothing(
    worker: Worker,
    request: PanelRequest,
    after: Worker,
    r: Work,
)
    requires
        worker.accepts(request, after, r),
        request is MoveSelection || request is Resize || request is ToggleHistory,
    ensures
        after.data.agents == worker.data.agents,
        after.data.processes == worker.data.processes,
        r is Tell || r is LatestProcess,
        after.data.storage == worker.data.storage,
        after.data.dry_run == worker.data.dry_run,
{
}

/// A removal is put in question only where an item could not be reached; whatever else
/// fails is only told.
pub proof fn only_failed_navigation_is_offered_for_removal(
    worker: Worker,
    focus: Option<TrackedId>,
    result: Result<bool, Error>,
    after: Worker,
    r: Seq<PanelEvent>,
    i: int,
)
    requires
        worker.answers(focus, result, after, r),
        0 <= i < r.len(),
    ensures
        r[i] is FocusFailed <==> focus is Some && (result matches Err(Error::Navigation(_))),
        r[i] matches PanelEvent::FocusFailed { target, message } ==> Some(target) == focus
            && message@ == result->Err_0.wording(),
        r[i] is Failed <==> result is Err && !(r[i] is FocusFailed),
        r[i] is Focused ==> result == Ok::<bool, Error>(true),
        result == Ok::<bool, Error>(true) ==> r.last() is Focused,
        result is Ok ==> r[0] is Updated && after == worker,
        result matches Err(error) ==> after.data.message is Some && after.data.message->0@
            == error.wording(),
{
}

/// Data is read again every five seconds; the terminal is drawn ten times a second; the
/// parts of the history follow one another forty times a second.
pub proof fn the_panel_keeps_time()
    ensures
        REFRESH == 5 * 1_000_000_000,
        10 * REDRAW == 1_000_000_000,
        40 * HISTORY_STEP == 1_000_000_000,
{
}

/// A part of the history is due only while the history is shown and not complete, and
/// not before its time.
pub proof fn history_is_read_in_its_time(worker: Worker, now: u128)
    ensures
        worker.history_at(now) <==> worker.data.show_history && !worker.data.history_loaded
            && worker.next_history <= now && worker.history_retry <= now,
{
}

} // verus!
