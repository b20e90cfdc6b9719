//! What is said where something is refused: rows that cannot be those of the library,
//! changes that did not take place, and arguments that are not understood.

use vstd::prelude::*;

use crate::agent::{agent_taken, AgentRun, AgentStatus};
use crate::answers::{agent_status_fault, process_state_fault};
use crate::error::{Error, ErrorView};
use crate::orchestrator::{client_choice, ClientChoice};
use crate::query::{AgentStatusRow, ProcessStateRow};
use crate::refresh::argument_fault;
use crate::rows::{
    agent_fault, agent_state_fault, lifecycle, process_fault, state_fault, AgentRow, AgentStateRow,
    HostRow, ProcessRow, StateRow,
};
use crate::storage::{Job, Storage};
use crate::text::{blank, joined, signed};
use crate::time::Timestamp;
use crate::transaction::{opening, ActionView, Answer, Phase, Transaction};

verus! {

/// What is said of a column that could not be read.
pub open spec fn unreadable(name: Seq<char>, reason: String) -> Option<Seq<char>> {
    Some("invalid "@ + name + ": "@ + reason@)
}

/// The first column of a state that cannot be read is named; where all can, it is said
/// that they do not fit together.
pub proof fn unreadable_states_are_named(row: StateRow)
    ensures
        match (row.running, row.finished, row.acked, row.finished_at, row.exit_status) {
            (Err(e), _, _, _, _) => state_fault(row) == unreadable("running"@, e),
            (_, Err(e), _, _, _) => state_fault(row) == unreadable("finished"@, e),
            (_, _, Err(e), _, _) => state_fault(row) == unreadable("acked"@, e),
            (_, _, _, Err(e), _) => state_fault(row) == unreadable("finished_at"@, e),
            (_, _, _, _, Err(e)) => state_fault(row) == unreadable("exit_status"@, e),
            (Ok(running), Ok(finished), Ok(acked), Ok(end), Ok(code)) => state_fault(row)
                == if lifecycle(running, finished, acked, end, code) is Some {
                None::<Seq<char>>
            } else {
                Some("invalid process lifecycle columns"@)
            },
        },
{
}

/// What is wrong with the stored status of an agent is named.
pub proof fn unreadable_statuses_are_named(row: AgentStateRow)
    ensures
        match (row.status, row.acked) {
            (Err(e), _) => agent_state_fault(row) == unreadable("agent status"@, e),
            (Ok(status), acked) => if !(1 <= status <= 5) {
                agent_state_fault(row) == Some("invalid agent status "@ + signed(status as int))
            } else {
                match acked {
                    Err(e) => agent_state_fault(row) == unreadable("agent acknowledged flag"@, e),
                    Ok(flag) => agent_state_fault(row) == if flag == 1 && status != 4 {
                        Some("agent has acknowledged non-done state"@)
                    } else if flag != 0 && flag != 1 {
                        Some("invalid agent acknowledged flag"@)
                    } else {
                        None
                    },
                }
            },
        },
{
}

/// Whether a row names its host: the columns that do so could be read, and one of the
/// flags is set.
pub open spec fn names_host(host: HostRow) -> bool {
    &&& host.shell is Ok && host.tmux is Ok && host.orchestrator_id is Ok
    &&& host.shell->Ok_0 == 1 && host.tmux->Ok_0 == 0 || host.shell->Ok_0 == 0
        && host.tmux->Ok_0 == 1
}

/// What is wrong with the row of a command is named, from the first column on.
pub proof fn faults_of_commands_are_named(row: ProcessRow)
    ensures
        row.id matches Err(e) ==> process_fault(row) == unreadable("process id"@, e),
        row.id is Ok ==> (row.label matches Err(e) ==> process_fault(row) == unreadable(
            "label"@,
            e,
        )),
        row.id is Ok && row.label is Ok ==> (row.started_at matches Err(e) ==> process_fault(row)
            == unreadable("started_at"@, e)),
        row.id is Ok && row.label is Ok && row.started_at is Ok && state_fault(row.state) is Some
            ==> process_fault(row) == state_fault(row.state),
        row.id is Ok && row.label is Ok && row.started_at is Ok && state_fault(row.state) is None
            ==> {
            let id = row.id->Ok_0;
            let host = row.host;
            let target = host.orchestrator_id->Ok_0;
            &&& host.shell matches Err(e) ==> process_fault(row) == unreadable(
                ""@ + "shell flag"@,
                e,
            )
            &&& host.shell is Ok ==> (host.tmux matches Err(e) ==> process_fault(row)
                == unreadable(""@ + "tmux flag"@, e))
            &&& host.shell is Ok && host.tmux is Ok ==> (host.orchestrator_id matches Err(e)
                ==> process_fault(row) == unreadable(""@ + "orchestrator id"@, e))
            &&& host.shell is Ok && host.tmux is Ok && host.orchestrator_id is Ok && !names_host(
                host,
            ) ==> process_fault(row) == Some(
                "process"@ + " "@ + signed(id as int) + " has invalid orchestrator flags"@,
            )
            &&& names_host(host) && host.shell->Ok_0 == 1 ==> {
                &&& host.shell_id matches Err(e) ==> process_fault(row) == unreadable(
                    ""@ + "shell id"@,
                    e,
                )
                &&& host.shell_id matches Ok(found) ==> found != Some(target) ==> process_fault(
                    row,
                ) == Some(
                    "process"@ + " "@ + signed(id as int) + " references missing "@ + "shells"@
                        + " row "@ + signed(target as int),
                )
                &&& host.shell_id == Ok::<Option<i64>, String>(Some(target)) ==> (
                host.shell_cwd matches Err(e) ==> process_fault(row) == unreadable(
                    ""@ + "shell cwd"@,
                    e,
                ))
                &&& host.shell_id == Ok::<Option<i64>, String>(Some(target)) && host.shell_cwd is Ok
                    && target <= 0 ==> process_fault(row) == Some(
                    "invalid shell id "@ + signed(target as int),
                )
            }
            &&& names_host(host) && host.tmux->Ok_0 == 1 ==> {
                &&& host.tmux_id matches Err(e) ==> process_fault(row) == unreadable(
                    ""@ + "tmux id"@,
                    e,
                )
                &&& host.tmux_id matches Ok(found) ==> found != Some(target) ==> process_fault(row)
                    == Some(
                    "process"@ + " "@ + signed(id as int) + " references missing "@ + "tmux"@
                        + " row "@ + signed(target as int),
                )
                &&& host.tmux_id == Ok::<Option<i64>, String>(Some(target)) ==> (
                host.tmux_cwd matches Err(e) ==> process_fault(row) == unreadable(
                    ""@ + "tmux cwd"@,
                    e,
                ))
                &&& host.tmux_id == Ok::<Option<i64>, String>(Some(target)) && host.tmux_cwd is Ok
                    ==> (host.tmux_pane matches Err(e) ==> process_fault(row) == unreadable(
                    ""@ + "tmux pane"@,
                    e,
                ))
                &&& host.tmux_id == Ok::<Option<i64>, String>(Some(target)) && host.tmux_cwd is Ok
                    && host.tmux_pane is Ok && (target <= 0 || host.tmux_pane->Ok_0@.len() == 0)
                    ==> process_fault(row) == Some(
                    "invalid tmux destination "@ + signed(target as int),
                )
            }
        },
{
}

/// What is wrong with the row of an agent is named, from the first column on.
pub proof fn faults_of_agents_are_named(row: AgentRow)
    ensures
        row.id matches Err(e) ==> agent_fault(row) == unreadable("agent id"@, e),
        row.id is Ok ==> (row.kind matches Err(e) ==> agent_fault(row) == unreadable(
            "agent kind"@,
            e,
        )),
        row.id is Ok && row.kind is Ok ==> (row.started_at matches Err(e) ==> agent_fault(row)
            == unreadable("agent started_at"@, e)),
        row.id is Ok && row.kind is Ok && row.started_at is Ok && agent_state_fault(row.state)
            is Some ==> agent_fault(row) == agent_state_fault(row.state),
        row.id is Ok && row.kind is Ok && row.started_at is Ok && agent_state_fault(row.state)
            is None ==> {
            let id = row.id->Ok_0;
            let host = row.host;
            let target = host.orchestrator_id->Ok_0;
            let fit = id > 0 && !blank(row.kind->Ok_0@) && row.started_at->Ok_0 >= 0;
            &&& host.shell matches Err(e) ==> agent_fault(row) == unreadable(
                "agent "@ + "shell flag"@,
                e,
            )
            &&& host.shell is Ok ==> (host.tmux matches Err(e) ==> agent_fault(row) == unreadable(
                "agent "@ + "tmux flag"@,
                e,
            ))
            &&& host.shell is Ok && host.tmux is Ok ==> (host.orchestrator_id matches Err(e)
                ==> agent_fault(row) == unreadable("agent "@ + "orchestrator id"@, e))
            &&& host.shell is Ok && host.tmux is Ok && host.orchestrator_id is Ok ==> {
                &&& id <= 0 ==> agent_fault(row) == Some("invalid agent id "@ + signed(id as int))
                &&& id > 0 && blank(row.kind->Ok_0@) ==> agent_fault(row) == Some(
                    "agent "@ + signed(id as int) + " has a blank kind"@,
                )
                &&& id > 0 && !blank(row.kind->Ok_0@) && row.started_at->Ok_0 < 0
                    ==> agent_fault(row) == Some(
                    "agent "@ + signed(id as int) + " has invalid started_at"@,
                )
                &&& fit && !names_host(host) ==> agent_fault(row) == Some(
                    "agent"@ + " "@ + signed(id as int) + " has invalid orchestrator flags"@,
                )
            }
            &&& fit && names_host(host) && host.shell->Ok_0 == 1 ==> (host.shell_id matches Ok(
                found,
            ) ==> found != Some(target) ==> agent_fault(row) == Some(
                "agent"@ + " "@ + signed(id as int) + " references missing "@ + "shells"@
                    + " row "@ + signed(target as int),
            ))
            &&& fit && names_host(host) && host.tmux->Ok_0 == 1 ==> (host.tmux_id matches Ok(found)
                ==> found != Some(target) ==> agent_fault(row) == Some(
                "agent"@ + " "@ + signed(id as int) + " references missing "@ + "tmux"@ + " row "@
                    + signed(target as int),
            ))
        },
{
}

/// A command whose row tells no more wrong than its number, its label or its end is
/// refused for that.
pub proof fn ends_come_after_starts(row: ProcessRow, sound: ProcessRow)
    requires
        process_fault(sound) is None,
        row.state == sound.state,
        row.host == sound.host,
        row.id is Ok && row.label is Ok && row.started_at is Ok,
    ensures
        row.id->Ok_0 <= 0 ==> process_fault(row) == Some(
            "invalid process id "@ + signed(row.id->Ok_0 as int),
        ),
        row.id->Ok_0 > 0 && row.label->Ok_0@.len() == 0 ==> process_fault(row) == Some(
            "process "@ + signed(row.id->Ok_0 as int) + " has an empty label"@,
        ),
        row.id->Ok_0 > 0 && row.label->Ok_0@.len() > 0 && process_fault(row) is Some
            ==> process_fault(row) == Some(
            "process "@ + signed(row.id->Ok_0 as int) + " finished before it started"@,
        ),
{
}

/// The row of a state is refused for its number first, and for the state behind it.
pub proof fn rows_of_states_are_checked(process: ProcessStateRow, agent: AgentStatusRow)
    ensures
        process.id matches Err(e) ==> process_state_fault(process) == unreadable("process id"@, e),
        process.id is Ok ==> process_state_fault(process) == state_fault(process.state),
        agent.id matches Err(e) ==> agent_status_fault(agent) == unreadable("agent id"@, e),
        agent.id matches Ok(id) ==> agent_status_fault(agent) == if id <= 0 {
            Some("invalid agent id "@ + signed(id as int))
        } else {
            agent_state_fault(agent.state)
        },
{
}

/// What an agent cannot have become is said, with its number.
pub proof fn implausible_statuses_are_named(
    run: AgentRun,
    status: AgentStatus,
    acknowledged: bool,
    after: AgentRun,
    error: Error,
)
    requires
        agent_taken(run, Ok((status, acknowledged)), after, Err(error)),
    ensures
        after == run,
        acknowledged && status != AgentStatus::Done ==> error@ == ErrorView::CorruptData(
            "agent "@ + signed(run.id as int) + " has acknowledged non-done state"@,
        ),
        !(acknowledged && status != AgentStatus::Done) ==> error@ == ErrorView::CorruptData(
            "agent "@ + signed(run.id as int) + " moved from "@ + word(run.status)
                + " to unreachable "@ + word(status) + " state"@,
        ),
{
}

/// The word for a status.
pub open spec fn word(status: AgentStatus) -> Seq<char> {
    match status {
        AgentStatus::Idle => "idle"@,
        AgentStatus::Working => "working"@,
        AgentStatus::Waiting => "waiting"@,
        AgentStatus::Done => "done"@,
        AgentStatus::Killed => "killed"@,
    }
}

/// A row that is not there, and a number that cannot be one, are reported.
pub proof fn refused_changes_are_reported(transaction: Transaction, id: i64, now: Timestamp)
    ensures
        transaction.job matches Job::FinishProcess { id: target, .. } ==> transaction.followed(
            Answer::State(None),
            now,
        ) == ActionView::Abort(ErrorView::NotFound(target)),
        transaction.job matches Job::AcknowledgeProcess { id: target } ==> transaction.followed(
            Answer::State(None),
            now,
        ) == ActionView::Abort(ErrorView::NotFound(target)),
        transaction.job matches Job::SetStatusAgent { id: target, .. } ==> transaction.followed(
            Answer::AgentState(None),
            now,
        ) == ActionView::Abort(ErrorView::AgentNotFound(target)),
        transaction.job matches Job::AcknowledgeAgent { id: target } ==> transaction.followed(
            Answer::AgentState(None),
            now,
        ) == ActionView::Abort(ErrorView::AgentNotFound(target)),
        transaction.job matches Job::AcknowledgeAgentIfDone { id: target }
            ==> transaction.followed(Answer::AgentState(None), now) == ActionView::Abort(
            ErrorView::AgentNotFound(target),
        ),
        transaction.job matches Job::DeleteProcess { id: target } ==> transaction.followed(
            Answer::Reference(None),
            now,
        ) == ActionView::Abort(ErrorView::NotFound(target)),
        transaction.job matches Job::DeleteAgent { id: target } ==> transaction.followed(
            Answer::Reference(None),
            now,
        ) == ActionView::Abort(ErrorView::AgentNotFound(target)),
        id <= 0 && transaction.phase is Host ==> transaction.followed(Answer::Inserted(id), now)
            == ActionView::Abort(
            ErrorView::Database("SQLite returned an invalid orchestrator id"@),
        ),
        id <= 0 && transaction.phase is Item && transaction.job is CreateAgent
            ==> transaction.followed(Answer::Inserted(id), now) == ActionView::Abort(
            ErrorView::Database("SQLite returned an invalid agent id"@),
        ),
        id <= 0 && transaction.phase is Item && transaction.job is StartProcess
            ==> transaction.followed(Answer::Inserted(id), now) == ActionView::Abort(
            ErrorView::Database("SQLite returned an invalid process id"@),
        ),
{
}

/// A change that met another one is given up, and it is said of which item.
pub proof fn lost_races_are_named(transaction: Transaction, count: usize, now: Timestamp)
    requires
        count != 1,
    ensures
        transaction.phase is Status ==> (transaction.job matches Job::SetStatusAgent { id, .. }
            ==> transaction.followed(Answer::Changed(count), now) == ActionView::Abort(
            ErrorView::Database(
                "agent "@ + signed(id as int) + " changed during status update"@,
            ),
        )),
        transaction.phase is AcknowledgingAgent ==> (transaction.job
            matches Job::AcknowledgeAgent { id } ==> transaction.followed(
            Answer::Changed(count),
            now,
        ) == ActionView::Abort(
            ErrorView::Database(
                "agent "@ + signed(id as int) + " changed during acknowledgment"@,
            ),
        )),
        transaction.phase is AcknowledgingAgent ==> (transaction.job
            matches Job::AcknowledgeAgentIfDone { id } ==> transaction.followed(
            Answer::Changed(count),
            now,
        ) == ActionView::Abort(
            ErrorView::Database(
                "agent "@ + signed(id as int) + " changed during conditional acknowledgment"@,
            ),
        )),
        transaction.phase is Removing ==> (transaction.job matches Job::DeleteProcess { id }
            ==> transaction.followed(Answer::Changed(count), now) == ActionView::Abort(
            ErrorView::Database(
                "processes"@ + " row "@ + signed(id as int) + " changed during deletion"@,
            ),
        )),
        transaction.phase is Removing ==> (transaction.job matches Job::DeleteAgent { id }
            ==> transaction.followed(Answer::Changed(count), now) == ActionView::Abort(
            ErrorView::Database(
                "agents"@ + " row "@ + signed(id as int) + " changed during deletion"@,
            ),
        )),
{
}

/// A row whose flags name no host is not removed.
pub proof fn hosts_are_removed_by_their_flags(
    transaction: Transaction,
    shell: i64,
    tmux: i64,
    host: i64,
    now: Timestamp,
)
    requires
        transaction.phase == (Phase::Removing {
            shell_flag: shell,
            tmux_flag: tmux,
            orchestrator_id: host,
        }),
    ensures
        shell == 1 && tmux == 0 || shell == 0 && tmux == 1 ==> (transaction.followed(
            Answer::Changed(1),
            now,
        ) matches ActionView::Run { rest, .. } && rest.phase == (Phase::Counting {
            tmux: tmux == 1,
            orchestrator_id: host,
        })),
        !(shell == 1 && tmux == 0 || shell == 0 && tmux == 1) ==> (transaction.job
            matches Job::DeleteProcess { id } ==> transaction.followed(Answer::Changed(1), now)
            == ActionView::Abort(
            ErrorView::CorruptData(
                "processes"@ + " row "@ + signed(id as int) + " has invalid orchestrator flags"@,
            ),
        )),
        !(shell == 1 && tmux == 0 || shell == 0 && tmux == 1) ==> (transaction.job
            matches Job::DeleteAgent { id } ==> transaction.followed(Answer::Changed(1), now)
            == ActionView::Abort(
            ErrorView::CorruptData(
                "agents"@ + " row "@ + signed(id as int) + " has invalid orchestrator flags"@,
            ),
        )),
{
}

/// Nothing is written for an item in a pane without a name.
pub proof fn panes_have_names(
    storage: Storage,
    text: String,
    cwd: String,
    pane: String,
)
    requires
        pane@.len() == 0,
    ensures
        opening(storage, Job::StartProcess { label: text, cwd, pane: Some(pane) })
            == ActionView::Abort(ErrorView::Invalid("tmux pane is empty"@)),
        opening(storage, Job::CreateAgent { kind: text, cwd, pane: Some(pane) })
            == ActionView::Abort(ErrorView::Invalid("tmux pane is empty"@)),
{
}

/// The panel takes no arguments for tmux, or one that names a client; those for a shell
/// are not looked at.
pub proof fn arguments_are_checked(args: Seq<Seq<char>>, name: Seq<char>)
    ensures
        argument_fault(false, args) is None,
        args.len() == 0 ==> argument_fault(true, args) is None,
        args.len() == 2 && args[0] == "--client"@ && args[1].len() > 0 ==> argument_fault(
            true,
            args,
        ) is None && client_choice(args) == ClientChoice::Named(args[1]),
        name.len() > 0 ==> argument_fault(true, seq!["--client="@ + name]) is None
            && client_choice(seq!["--client="@ + name]) == ClientChoice::Named(name),
        args.len() > 2 || args.len() == 2 && (args[0] != "--client"@ || args[1].len() == 0)
            || args.len() == 1 && (args[0] == "--client"@ || args[0] == "--client="@
            || !"--client="@.is_prefix_of(args[0])) ==> argument_fault(true, args) == Some(
            ErrorView::Invalid(
                "unsupported tmux navigation arguments: "@ + joined(args, " "@),
            ),
        ),
{
    let option = "--client="@ + name;
    reveal_strlit("--client");
    reveal_strlit("--client=");
    assert("--client="@.is_prefix_of(option));
    assert(option.skip(9) =~= name);
    assert(name.len() > 0 ==> option.len() != "--client="@.len());
}

} // verus!
