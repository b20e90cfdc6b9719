//! How the panel keeps up with storage: what is asked while it is loaded and
//! synchronized, what the answers come to, and what the terminal is told.

use vstd::prelude::*;

use crate::agent::{AgentRun, AgentStatus};
use crate::error::{Error, ErrorView};
use crate::focus::FocusStep;
use crate::observation::{
    lemma_place_of, observed_agent, observed_agents, observed_processes,
};
use crate::panel::{position, PanelData, TrackedId};
use crate::process::{ProcessRun, ProcessState};
use crate::query::{AgentQuery, ProcessQuery};
use crate::refresh::{LoadEvent, LoadStep, Marks, SyncEvent, SyncStep, TargetStep};
use crate::storage::Storage;
use crate::text::signed;
use crate::worker::{without_focus, PanelEvent, PanelRequest, Work, Worker};

verus! {

/// A panel is loaded by asking for the largest number of an agent, that of a command,
/// the agents that were not killed and the commands that were not acknowledged, in this
/// order. Whatever cannot be answered ends the loading with its error.
pub proof fn loading_asks_in_order(
    storage: Storage,
    dry_run: bool,
    event: LoadEvent,
    r: LoadStep,
)
    requires
        PanelData::load_follows(storage, dry_run, event, r),
    ensures
        event is Started ==> r == LoadStep::LatestAgent,
        event matches LoadEvent::LatestAgent(latest) ==> match latest {
            Err(error) => r == LoadStep::Failed(error),
            Ok(None) => r == (LoadStep::LatestProcess { agent_mark: 0 }),
            Ok(Some(id)) => r == (LoadStep::LatestProcess { agent_mark: id }),
        },
        event matches LoadEvent::LatestProcess { agent_mark, latest } ==> match latest {
            Err(error) => r == LoadStep::Failed(error),
            Ok(id) => r == (LoadStep::Agents {
                marks: Marks {
                    agent: agent_mark,
                    process: match id {
                        None => 0,
                        Some(id) => id,
                    },
                },
                query: AgentQuery::Unkilled,
            }),
        },
        event matches LoadEvent::Agents { marks, found } ==> match found {
            Err(error) => r == LoadStep::Failed(error),
            Ok(agents) => r == (LoadStep::Processes {
                marks,
                agents,
                process_query: ProcessQuery::Unacked,
            }),
        },
        event matches LoadEvent::Processes { found_processes, .. } ==> (r is Loaded || r is Failed)
            && (found_processes matches Err(error) ==> (r matches LoadStep::Failed(reason)
            && reason@ == error@)),
        r is Loaded ==> event is Processes,
{
}

/// A panel that was just loaded shows its first item, no history and no message, and has
/// seen all up to the numbers that it asked for.
pub proof fn loaded_panels_start_at_the_top(
    storage: Storage,
    dry_run: bool,
    event: LoadEvent,
    panel: PanelData,
)
    requires
        PanelData::load_follows(storage, dry_run, event, LoadStep::Loaded(panel)),
    ensures
        panel.storage == storage && panel.dry_run == dry_run,
        panel.agent_discovered_through == event->Processes_marks.agent,
        panel.discovered_through == event->Processes_marks.process,
        panel.history_after == 0 && panel.history_through is None && !panel.history_loaded,
        !panel.show_history,
        panel.viewport_len == 0,
        panel.message is None,
        panel.listing().len() == 0 ==> panel.selected is None,
        panel.listing().len() > 0 ==> panel.selected == Some(panel.listing()[0]),
{
}

/// A synchronization asks for what is behind the numbers that the panel has seen, and
/// for nothing where there is nothing behind them.
pub proof fn synchronization_asks_for_what_is_new(
    panel: PanelData,
    latest: Option<i64>,
    after: PanelData,
    r: SyncStep,
    agents: bool,
)
    requires
        panel.sync_follows(
            if agents {
                SyncEvent::LatestAgent(Ok(latest))
            } else {
                SyncEvent::LatestProcess(Ok(latest))
            },
            after,
            r,
        ),
    ensures
        ({
            let through = match latest {
                None => 0i64,
                Some(id) => id,
            };
            let seen = if agents {
                panel.agent_discovered_through
            } else {
                panel.discovered_through
            };
            &&& agents && seen >= through ==> r == SyncStep::LatestProcess
            &&& !agents && seen >= through ==> !(r is Processes)
            &&& seen < through ==> after == panel
            &&& agents && 0 <= seen < through ==> r == (SyncStep::Agents {
                through,
                query: AgentQuery::Range { after: seen, through, limit: 256 },
            })
            &&& !agents && 0 <= seen < through ==> r == (SyncStep::Processes {
                through,
                process_query: ProcessQuery::Range { after: seen, through, limit: 256 },
            })
            &&& agents && seen < 0 && seen < through ==> (r matches SyncStep::Failed(error)
                && error@ == ErrorView::Invalid("invalid agent range"@))
            &&& !agents && seen < 0 && seen < through ==> (r matches SyncStep::Failed(error)
                && error@ == ErrorView::Invalid("invalid process range"@))
        }),
{
}

/// What fails ends a synchronization with its error, and leaves the panel as it is.
pub proof fn failed_answers_end_the_synchronization(
    panel: PanelData,
    event: SyncEvent,
    after: PanelData,
    r: SyncStep,
)
    requires
        panel.sync_follows(event, after, r),
    ensures
        event is Started ==> after == panel && r == SyncStep::LatestAgent,
        event matches SyncEvent::LatestAgent(Err(error)) ==> after == panel && r
            == SyncStep::Failed(error),
        event matches SyncEvent::LatestProcess(Err(error)) ==> after == panel && r
            == SyncStep::Failed(error),
        event matches SyncEvent::Agents { found: Err(error), .. } ==> after == panel && r
            == SyncStep::Failed(error),
        event matches SyncEvent::Processes { found_processes: Err(error), .. } ==> after == panel
            && r == SyncStep::Failed(error),
        after.storage == panel.storage && after.dry_run == panel.dry_run,
        after.show_history == panel.show_history && after.message == panel.message,
        after.history_after == panel.history_after,
        after.viewport_len == panel.viewport_len,
        event matches SyncEvent::Agents { .. } ==> after.processes == panel.processes,
        event matches SyncEvent::Processes { .. } ==> after.agents == panel.agents,
{
}

/// Behind a part of the new items the panel has seen all up to the last of them, or up to
/// the end where there were none.
pub proof fn parts_are_read_one_after_another(
    panel: PanelData,
    through: i64,
    found: Vec<AgentRun>,
    after: PanelData,
    r: SyncStep,
)
    requires
        panel.sync_follows(SyncEvent::Agents { through, found: Ok(found) }, after, r),
        !(r is Failed),
    ensures
        found@.len() == 0 ==> after.agent_discovered_through == through,
        found@.len() > 0 ==> after.agent_discovered_through == found@[found@.len() - 1].id,
        after.agent_discovered_through < through ==> r is Agents,
        after.agent_discovered_through >= through ==> r is LatestProcess,
{
}

/// The history ends where nothing of it is left to be read; where it is hidden or
/// complete, nothing is read.
pub proof fn the_history_ends(
    panel: PanelData,
    found: Result<Vec<ProcessRun>, Error>,
    after: PanelData,
    r: Result<(), Error>,
)
    requires
        panel.history_follows(found, after, r),
    ensures
        panel.history_loaded || !panel.show_history ==> after == panel && r is Ok,
        panel.show_history && !panel.history_loaded && panel.history_after >= panel.history_end()
            ==> after.history_loaded && r is Ok && after.processes == panel.processes,
        panel.show_history && !panel.history_loaded && panel.history_after < panel.history_end()
            ==> (found matches Err(error) ==> after == panel && r == Err::<(), Error>(error)),
        after.agents == panel.agents && after.storage == panel.storage,
        after.show_history == panel.show_history && after.message == panel.message,
{
}

/// The end of a command that was observed before is not replaced by another one: that is
/// an error. What is known to run takes any state over.
pub proof fn ends_are_not_replaced(
    runs: Seq<ProcessRun>,
    k: int,
    state: ProcessState,
)
    requires
        0 <= k < runs.len(),
        forall|i: int, j: int|
            0 <= i < j < runs.len() ==> (#[trigger] runs[i]).id != (#[trigger] runs[j]).id,
    ensures
        ({
            let (after, r) = observed_processes(runs, seq![(runs[k].id, state)]);
            &&& runs[k].state is Running ==> r is Ok && after == runs.update(
                k,
                ProcessRun { state, ..runs[k] },
            )
            &&& r is Err ==> after == runs && r == Err::<(), ErrorView>(
                ErrorView::CorruptData(
                    "process "@ + signed(runs[k].id as int)
                        + " has inconsistent completion facts"@,
                ),
            )
            &&& match (runs[k].state, state) {
                (
                    ProcessState::Finished { finished_at: known, exit_status: code },
                    ProcessState::Acknowledged { finished_at, exit_status },
                ) => if known == finished_at && code == exit_status {
                    r is Ok && after == runs.update(k, ProcessRun { state, ..runs[k] })
                } else {
                    r is Err
                },
                (
                    ProcessState::Acknowledged { finished_at: known, exit_status: code },
                    ProcessState::Finished { finished_at, exit_status },
                ) => if known == finished_at && code == exit_status {
                    r is Ok && after == runs
                } else {
                    r is Err
                },
                _ => true,
            }
        }),
{
    let states = seq![(runs[k].id, state)];
    assert(states.drop_last() =~= Seq::empty());
    assert(observed_processes(runs, states.drop_last()) == (runs, Ok::<(), ErrorView>(())));
    lemma_place_of(runs, runs[k].id, k);
    assert(runs.update(k, runs[k]) =~= runs);
}

/// A status is taken over by the agent that it was observed of, where it can have come of
/// the known one; else it is an error, and the agent stays as it was.
pub proof fn statuses_come_of_the_known_one(run: AgentRun, status: AgentStatus, acknowledged: bool)
    ensures
        ({
            let (after, r) = observed_agents(seq![run], seq![(run.id, status, acknowledged)]);
            if acknowledged && status != AgentStatus::Done {
                after == seq![run] && r == Err::<(), ErrorView>(
                    ErrorView::CorruptData(
                        "agent "@ + signed(run.id as int) + " has acknowledged non-done state"@,
                    ),
                )
            } else if status == AgentStatus::Idle && run.status != AgentStatus::Idle {
                after == seq![run] && (r matches Err(ErrorView::CorruptData(_)))
            } else if run.status != AgentStatus::Killed {
                after == seq![AgentRun { status, acknowledged, ..run }] && r is Ok
            } else {
                status != AgentStatus::Killed ==> after == seq![run] && r is Err
            }
        }),
{
    let states = seq![(run.id, status, acknowledged)];
    let runs = seq![run];
    assert(states.drop_last() =~= Seq::empty());
    assert(runs.drop_last() =~= Seq::empty());
    assert(observed_agents(runs, states.drop_last()) == (runs, Ok::<(), ErrorView>(())));
    reveal_with_fuel(observed_agent, 2);
    assert(Seq::<AgentRun>::empty().push(run) =~= runs);
    let changed = AgentRun { status, acknowledged, ..run };
    assert(Seq::<AgentRun>::empty().push(changed) =~= seq![changed]);
}

/// A request that is not about focus is answered with one event: the new picture, or the
/// error.
pub proof fn only_focus_ends_with_an_arrival(
    worker: Worker,
    done: Result<(), Error>,
    after: Worker,
    r: Seq<PanelEvent>,
)
    requires
        worker.answers(None, without_focus(done), after, r),
    ensures
        r.len() == 1,
        done is Ok ==> r[0] is Updated && after == worker,
        done matches Err(error) ==> (r[0] matches PanelEvent::Failed(text) && text@
            == error.wording()),
{
}

/// Moving, resizing and the history are answered at once with the new picture, and a
/// removal in a dry run with the error.
pub proof fn requests_are_answered_at_once(
    worker: Worker,
    request: PanelRequest,
    after: Worker,
    r: Work,
)
    requires
        worker.accepts(request, after, r),
    ensures
        request is MoveSelection || request is Resize ==> (r matches Work::Tell(events)
            && events@.len() == 1 && events@[0] is Updated),
        request matches PanelRequest::Resize(rows) ==> after.data.viewport_len == rows,
        request is ToggleHistory ==> if !worker.data.show_history
            && worker.data.history_through is None {
            after == worker && r is LatestProcess
        } else {
            (r matches Work::Tell(events) && events@.len() == 1 && events@[0] is Updated)
                && after.data.show_history == !worker.data.show_history
                && after.data.message is None
        },
        request is Delete && worker.data.dry_run ==> (r matches Work::Tell(events)
            && events@.len() == 1 && (events@[0] matches PanelEvent::Failed(text) && text@
            == "storage is read-only"@)),
        request is MoveSelection ==> after.data.viewport_len == worker.data.viewport_len
            && after.data.show_history == worker.data.show_history && after.data.message
            == worker.data.message,
{
}

/// A focus ends with an arrival in two events, the picture and the arrival; where it was
/// only previewed, with the picture.
pub proof fn focus_is_told(
    worker: Worker,
    target: TrackedId,
    step: TargetStep,
    after: Worker,
    r: Work,
)
    requires
        worker.focus_leads(target, step, after, r),
    ensures
        step is Previewed ==> (r matches Work::Tell(events) && events@.len() == 1 && events@[0]
            is Updated),
        step matches TargetStep::Focus(FocusStep::Arrived(_)) ==> (r matches Work::Tell(events)
            && events@.len() == 2 && events@[0] is Updated && events@[1] is Focused),
        step matches TargetStep::Focus(FocusStep::Failed(error)) ==> (r matches Work::Tell(events)
            && events@.len() == 1 && (events@[0] is FocusFailed <==> error is Navigation)
            && (events@[0] is Failed <==> !(error is Navigation))),
        step matches TargetStep::Focus(next) ==> !(next is Arrived) && !(next is Failed) ==> after
            == worker && r == (Work::Focus { target, step: next }),
{
}

/// The view of a settled panel shows the selected item.
pub proof fn the_selected_item_is_shown(panel: PanelData, selected: TrackedId)
    requires
        panel.settled(),
        panel.selected == Some(selected),
    ensures
        panel.listing().contains(selected),
        panel.viewport_start <= position(panel.listing(), selected),
        panel.viewport_len > 0 ==> position(panel.listing(), selected) < panel.viewport_start
            + panel.viewport_len,
{
}

} // verus!
