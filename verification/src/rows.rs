//! Rows as the database hands them over, and what is made of them.

use vstd::prelude::*;
use vstd::string::*;

use crate::agent::{status_code, AgentRun, AgentStatus};
use crate::error::{about, Error};
use crate::orchestrator::{Orchestrator, Shell, Tmux};
use crate::process::{completion, ProcessRun, ProcessState};
use crate::storage::Storage;
use crate::text::{blank, decimal, is_blank, signed};
use crate::time::{from_millis, moment, Timestamp};

verus! {

/// The lifecycle columns of a command. A column that does not hold a value of
/// its type comes with the reason.
pub struct StateRow {
    pub running: Result<i64, String>,
    pub finished: Result<i64, String>,
    pub acked: Result<i64, String>,
    pub finished_at: Result<Option<i64>, String>,
    pub exit_status: Result<Option<i64>, String>,
}

/// The lifecycle columns of an agent.
pub struct AgentStateRow {
    pub status: Result<i64, String>,
    pub acked: Result<i64, String>,
}

/// The columns of both tables of hosts, beside a row that refers to one of them.
pub struct HostRow {
    pub shell: Result<i64, String>,
    pub tmux: Result<i64, String>,
    pub orchestrator_id: Result<i64, String>,
    pub shell_id: Result<Option<i64>, String>,
    pub shell_cwd: Result<String, String>,
    pub tmux_id: Result<Option<i64>, String>,
    pub tmux_cwd: Result<String, String>,
    pub tmux_pane: Result<String, String>,
}

/// A command with its host.
pub struct ProcessRow {
    pub id: Result<i64, String>,
    pub label: Result<String, String>,
    pub started_at: Result<i64, String>,
    pub state: StateRow,
    pub host: HostRow,
}

/// An agent with its host.
pub struct AgentRow {
    pub id: Result<i64, String>,
    pub kind: Result<String, String>,
    pub started_at: Result<i64, String>,
    pub state: AgentStateRow,
    pub host: HostRow,
}

/// The first of two faults.
pub open spec fn or_fault(first: Option<Seq<char>>, second: Option<Seq<char>>) -> Option<
    Seq<char>,
> {
    if first is Some {
        first
    } else {
        second
    }
}

/// The fault of a column that is named `name`.
pub open spec fn data_fault<T>(value: Result<T, String>, name: Seq<char>) -> Option<Seq<char>> {
    match value {
        Ok(_) => None,
        Err(reason) => Some("invalid "@ + name + ": "@ + reason@),
    }
}

/// A fault, where a condition does not hold.
pub open spec fn fault_unless(holds: bool, text: Seq<char>) -> Option<Seq<char>> {
    if holds {
        None
    } else {
        Some(text)
    }
}

/// Whether a result is the given value, or the rejection with a fault.
pub open spec fn decoded<T>(fault: Option<Seq<char>>, value: T, r: Result<T, Error>) -> bool {
    match fault {
        None => r == Ok::<T, Error>(value),
        Some(text) => r matches Err(error) && error.is_corrupt(text),
    }
}

/// Takes the value of a column.
pub fn data<T>(value: Result<T, String>, name: &str) -> (r: Result<T, Error>)
    ensures
        decoded(data_fault(value, name@), value->Ok_0, r),
{
    match value {
        Ok(found) => Ok(found),
        Err(reason) => {
            let mut text: String = "invalid ".to_owned();
            text.append(name);
            text.append(": ");
            text.append(reason.as_str());
            Err(Error::CorruptData(text))
        },
    }
}

/// The state that the lifecycle columns of a command stand for.
pub open spec fn lifecycle(
    running: i64,
    finished: i64,
    acked: i64,
    finished_at: Option<i64>,
    exit_status: Option<i64>,
) -> Option<ProcessState> {
    match (finished_at, exit_status) {
        (None, None) => if running == 1 && finished == 0 && acked == 0 {
            Some(ProcessState::Running)
        } else {
            None
        },
        (Some(time), Some(code)) => if running == 0 && 0 <= code <= 255 {
            let finished_at = moment(time as int);
            if finished == 1 && acked == 0 {
                Some(ProcessState::Finished { finished_at, exit_status: code as u8 })
            } else if finished == 0 && acked == 1 {
                Some(ProcessState::Acknowledged { finished_at, exit_status: code as u8 })
            } else {
                None
            }
        } else {
            None
        },
        _ => None,
    }
}

/// What is wrong with the lifecycle columns of a command.
pub open spec fn state_fault(row: StateRow) -> Option<Seq<char>> {
    or_fault(
        data_fault(row.running, "running"@),
        or_fault(
            data_fault(row.finished, "finished"@),
            or_fault(
                data_fault(row.acked, "acked"@),
                or_fault(
                    data_fault(row.finished_at, "finished_at"@),
                    or_fault(
                        data_fault(row.exit_status, "exit_status"@),
                        fault_unless(
                            lifecycle_of(row) is Some,
                            "invalid process lifecycle columns"@,
                        ),
                    ),
                ),
            ),
        ),
    )
}

/// The state that a row stands for, where its columns hold values.
pub open spec fn lifecycle_of(row: StateRow) -> Option<ProcessState> {
    lifecycle(
        row.running->Ok_0,
        row.finished->Ok_0,
        row.acked->Ok_0,
        row.finished_at->Ok_0,
        row.exit_status->Ok_0,
    )
}

/// Decodes the lifecycle columns of a command.
pub fn decode_state_at(row: StateRow) -> (r: Result<ProcessState, Error>)
    ensures
        decoded(state_fault(row), lifecycle_of(row)->0, r),
{
    let running: i64 = match data(row.running, "running") {
        Ok(value) => value,
        Err(error) => return Err(error),
    };
    let finished: i64 = match data(row.finished, "finished") {
        Ok(value) => value,
        Err(error) => return Err(error),
    };
    let acked: i64 = match data(row.acked, "acked") {
        Ok(value) => value,
        Err(error) => return Err(error),
    };
    let finished_at: Option<i64> = match data(row.finished_at, "finished_at") {
        Ok(value) => value,
        Err(error) => return Err(error),
    };
    let exit: Option<i64> = match data(row.exit_status, "exit_status") {
        Ok(value) => value,
        Err(error) => return Err(error),
    };
    match (finished_at, exit) {
        (None, None) => {
            if running == 1 && finished == 0 && acked == 0 {
                return Ok(ProcessState::Running);
            }
        },
        (Some(time), Some(code)) => {
            if running == 0 && 0 <= code && code <= 255 {
                if finished == 1 && acked == 0 {
                    return Ok(
                        ProcessState::Finished {
                            finished_at: from_millis(time),
                            exit_status: code as u8,
                        },
                    );
                }
                if finished == 0 && acked == 1 {
                    return Ok(
                        ProcessState::Acknowledged {
                            finished_at: from_millis(time),
                            exit_status: code as u8,
                        },
                    );
                }
            }
        },
        _ => {},
    }
    Err(Error::CorruptData("invalid process lifecycle columns".to_owned()))
}

/// What is wrong with the lifecycle columns of an agent.
pub open spec fn agent_state_fault(row: AgentStateRow) -> Option<Seq<char>> {
    let status = row.status->Ok_0;
    let acked = row.acked->Ok_0;
    or_fault(
        data_fault(row.status, "agent status"@),
        or_fault(
            fault_unless(1 <= status <= 5, "invalid agent status "@ + signed(status as int)),
            or_fault(
                data_fault(row.acked, "agent acknowledged flag"@),
                or_fault(
                    fault_unless(
                        acked == 1 ==> status == status_code(AgentStatus::Done),
                        "agent has acknowledged non-done state"@,
                    ),
                    fault_unless(acked == 0 || acked == 1, "invalid agent acknowledged flag"@),
                ),
            ),
        ),
    )
}

/// The status and acknowledgment that a row stands for, where nothing is wrong
/// with it.
pub open spec fn agent_state_of(row: AgentStateRow) -> (AgentStatus, bool) {
    (status_of(row.status->Ok_0), row.acked->Ok_0 == 1)
}

/// The status that is stored as a number from one to five.
pub open spec fn status_of(code: i64) -> AgentStatus {
    if code == 1 {
        AgentStatus::Idle
    } else if code == 2 {
        AgentStatus::Working
    } else if code == 3 {
        AgentStatus::Waiting
    } else if code == 4 {
        AgentStatus::Done
    } else {
        AgentStatus::Killed
    }
}

/// Decodes the lifecycle columns of an agent.
pub fn decode_agent_state_at(row: AgentStateRow) -> (r: Result<(AgentStatus, bool), Error>)
    ensures
        decoded(agent_state_fault(row), agent_state_of(row), r),
{
    let code: i64 = match data(row.status, "agent status") {
        Ok(value) => value,
        Err(error) => return Err(error),
    };
    let status: AgentStatus = match AgentStatus::from_database(code) {
        Ok(value) => value,
        Err(error) => return Err(error),
    };
    let acknowledged: i64 = match data(row.acked, "agent acknowledged flag") {
        Ok(value) => value,
        Err(error) => return Err(error),
    };
    if acknowledged == 0 {
        Ok((status, false))
    } else if acknowledged == 1 {
        if status == AgentStatus::Done {
            Ok((status, true))
        } else {
            Err(Error::CorruptData("agent has acknowledged non-done state".to_owned()))
        }
    } else {
        Err(Error::CorruptData("invalid agent acknowledged flag".to_owned()))
    }
}

/// The text of a reference to a row that does not exist.
pub open spec fn dangling_text(
    subject: Seq<char>,
    id: i64,
    table: Seq<char>,
    target: i64,
) -> Seq<char> {
    subject + " "@ + signed(id as int) + " references missing "@ + table + " row "@ + signed(
        target as int,
    )
}

fn dangling_about(subject: &str, id: i64, table: &str, target: i64) -> (r: String)
    ensures
        r@ == dangling_text(subject@, id, table@, target),
{
    let mut text: String = subject.to_owned();
    text.append(" ");
    text.append(decimal(id).as_str());
    text.append(" references missing ");
    text.append(table);
    text.append(" row ");
    text.append(decimal(target).as_str());
    text
}

/// The rejection of a command whose host is missing.
pub fn dangling(id: i64, table: &str, target: i64) -> (r: Error)
    ensures
        r.is_corrupt(dangling_text("process"@, id, table@, target)),
{
    Error::CorruptData(dangling_about("process", id, table, target))
}

/// The rejection of an agent whose host is missing.
pub fn agent_dangling(id: i64, table: &str, target: i64) -> (r: Error)
    ensures
        r.is_corrupt(dangling_text("agent"@, id, table@, target)),
{
    Error::CorruptData(dangling_about("agent", id, table, target))
}

/// The text under which a directory is stored.
pub fn path_text(path: &String) -> (r: String)
    ensures
        r == *path,
{
    path.clone()
}

/// What is wrong with the flags of a reference to a host.
pub open spec fn flags_fault(subject: Seq<char>, id: i64, host: HostRow) -> Option<Seq<char>> {
    fault_unless(
        (host.shell->Ok_0 == 1 && host.tmux->Ok_0 == 0) || (host.shell->Ok_0 == 0 && host.tmux->Ok_0
            == 1),
        subject + " "@ + signed(id as int) + " has invalid orchestrator flags"@,
    )
}

/// What is wrong with the columns that tell which host is meant; `prefix` stands
/// before the names of the columns.
pub open spec fn reference_fault(prefix: Seq<char>, host: HostRow) -> Option<Seq<char>> {
    or_fault(
        data_fault(host.shell, prefix + "shell flag"@),
        or_fault(
            data_fault(host.tmux, prefix + "tmux flag"@),
            data_fault(host.orchestrator_id, prefix + "orchestrator id"@),
        ),
    )
}

/// What is wrong with the host that a row refers to.
pub open spec fn host_fault(
    prefix: Seq<char>,
    subject: Seq<char>,
    id: i64,
    host: HostRow,
) -> Option<Seq<char>> {
    let target = host.orchestrator_id->Ok_0;
    if host.shell->Ok_0 == 1 {
        or_fault(
            data_fault(host.shell_id, prefix + "shell id"@),
            or_fault(
                fault_unless(
                    host.shell_id->Ok_0 == Some(target),
                    dangling_text(subject, id, "shells"@, target),
                ),
                or_fault(
                    data_fault(host.shell_cwd, prefix + "shell cwd"@),
                    fault_unless(target > 0, "invalid shell id "@ + signed(target as int)),
                ),
            ),
        )
    } else {
        or_fault(
            data_fault(host.tmux_id, prefix + "tmux id"@),
            or_fault(
                fault_unless(
                    host.tmux_id->Ok_0 == Some(target),
                    dangling_text(subject, id, "tmux"@, target),
                ),
                or_fault(
                    data_fault(host.tmux_cwd, prefix + "tmux cwd"@),
                    or_fault(
                        data_fault(host.tmux_pane, prefix + "tmux pane"@),
                        fault_unless(
                            target > 0 && host.tmux_pane->Ok_0@.len() > 0,
                            "invalid tmux destination "@ + signed(target as int),
                        ),
                    ),
                ),
            ),
        )
    }
}

/// The host that a row refers to, where nothing is wrong with it.
pub open spec fn host_of(host: HostRow, storage: Storage) -> Orchestrator {
    let id = host.orchestrator_id->Ok_0;
    if host.shell->Ok_0 == 1 {
        Orchestrator::Shell(Shell { id, cwd: host.shell_cwd->Ok_0, storage })
    } else {
        Orchestrator::Tmux(
            Tmux { id, cwd: host.tmux_cwd->Ok_0, pane: host.tmux_pane->Ok_0, storage },
        )
    }
}

/// Checks the flags of a reference to a host.
fn flags_valid(shell: i64, tmux: i64) -> (r: bool)
    ensures
        r == ((shell == 1 && tmux == 0) || (shell == 0 && tmux == 1)),
{
    (shell == 1 && tmux == 0) || (shell == 0 && tmux == 1)
}

/// What is wrong with the row of a command, checked in this order.
pub open spec fn process_fault(row: ProcessRow) -> Option<Seq<char>> {
    let id = row.id->Ok_0;
    let started = moment(row.started_at->Ok_0 as int);
    let ended = lifecycle_of(row.state)->0.completed();
    let in_order = match ended {
        None => true,
        Some((time, _)) => started.nanos <= time.nanos,
    };
    or_fault(
        data_fault(row.id, "process id"@),
        or_fault(
            data_fault(row.label, "label"@),
            or_fault(
                data_fault(row.started_at, "started_at"@),
                or_fault(
                    state_fault(row.state),
                    or_fault(
                        reference_fault(""@, row.host),
                        or_fault(
                            flags_fault("process"@, id, row.host),
                            or_fault(
                                host_fault(""@, "process"@, id, row.host),
                                or_fault(
                                    fault_unless(id > 0, "invalid process id "@ + signed(id as int)),
                                    or_fault(
                                        fault_unless(
                                            row.label->Ok_0@.len() > 0,
                                            "process "@ + signed(id as int)
                                                + " has an empty label"@,
                                        ),
                                        fault_unless(
                                            in_order,
                                            "process "@ + signed(id as int)
                                                + " finished before it started"@,
                                        ),
                                    ),
                                ),
                            ),
                        ),
                    ),
                ),
            ),
        ),
    )
}

/// The command that a row stands for, where nothing is wrong with it.
pub open spec fn process_of(row: ProcessRow, storage: Storage) -> ProcessRun {
    ProcessRun {
        id: row.id->Ok_0,
        label: row.label->Ok_0,
        started_at: moment(row.started_at->Ok_0 as int),
        state: lifecycle_of(row.state)->0,
        orchestrator: host_of(row.host, storage),
        storage,
    }
}

/// What is wrong with the row of an agent, checked in this order.
pub open spec fn agent_fault(row: AgentRow) -> Option<Seq<char>> {
    let id = row.id->Ok_0;
    or_fault(
        data_fault(row.id, "agent id"@),
        or_fault(
            data_fault(row.kind, "agent kind"@),
            or_fault(
                data_fault(row.started_at, "agent started_at"@),
                or_fault(
                    agent_state_fault(row.state),
                    or_fault(
                        reference_fault("agent "@, row.host),
                        or_fault(
                            fault_unless(id > 0, "invalid agent id "@ + signed(id as int)),
                            or_fault(
                                fault_unless(
                                    !blank(row.kind->Ok_0@),
                                    "agent "@ + signed(id as int) + " has a blank kind"@,
                                ),
                                or_fault(
                                    fault_unless(
                                        row.started_at->Ok_0 >= 0,
                                        "agent "@ + signed(id as int) + " has invalid started_at"@,
                                    ),
                                    or_fault(
                                        flags_fault("agent"@, id, row.host),
                                        host_fault("agent "@, "agent"@, id, row.host),
                                    ),
                                ),
                            ),
                        ),
                    ),
                ),
            ),
        ),
    )
}

/// The agent that a row stands for, where nothing is wrong with it.
pub open spec fn agent_of(row: AgentRow, storage: Storage) -> AgentRun {
    AgentRun {
        id: row.id->Ok_0,
        kind: row.kind->Ok_0,
        started_at: moment(row.started_at->Ok_0 as int),
        status: agent_state_of(row.state).0,
        acknowledged: agent_state_of(row.state).1,
        orchestrator: host_of(row.host, storage),
        storage,
    }
}

/// Decodes the row of a command.
pub fn decode_process(row: ProcessRow, storage: Storage) -> (r: Result<ProcessRun, Error>)
    ensures
        decoded(process_fault(row), process_of(row, storage), r),
{
    proof {
        reveal_strlit("");
        assert(forall|name: Seq<char>| ""@ + name =~= name);
        lemma_reference_names();
    }
    let id: i64 = match data(row.id, "process id") {
        Ok(value) => value,
        Err(error) => return Err(error),
    };
    let label: String = match data(row.label, "label") {
        Ok(value) => value,
        Err(error) => return Err(error),
    };
    let started: i64 = match data(row.started_at, "started_at") {
        Ok(value) => value,
        Err(error) => return Err(error),
    };
    let state: ProcessState = match decode_state_at(row.state) {
        Ok(value) => value,
        Err(error) => return Err(error),
    };
    let shell: i64 = match data(row.host.shell, "shell flag") {
        Ok(value) => value,
        Err(error) => return Err(error),
    };
    let tmux: i64 = match data(row.host.tmux, "tmux flag") {
        Ok(value) => value,
        Err(error) => return Err(error),
    };
    let target: i64 = match data(row.host.orchestrator_id, "orchestrator id") {
        Ok(value) => value,
        Err(error) => return Err(error),
    };
    if !flags_valid(shell, tmux) {
        return Err(Error::CorruptData(about("process ", id, " has invalid orchestrator flags")));
    }
    let restored: Result<Orchestrator, Error> = if shell == 1 {
        let found: Option<i64> = match data(row.host.shell_id, "shell id") {
            Ok(value) => value,
            Err(error) => return Err(error),
        };
        if !is_row(found, target) {
            return Err(dangling(id, "shells", target));
        }
        let cwd: String = match data(row.host.shell_cwd, "shell cwd") {
            Ok(value) => value,
            Err(error) => return Err(error),
        };
        Orchestrator::restore_shell(storage, target, cwd)
    } else {
        let found: Option<i64> = match data(row.host.tmux_id, "tmux id") {
            Ok(value) => value,
            Err(error) => return Err(error),
        };
        if !is_row(found, target) {
            return Err(dangling(id, "tmux", target));
        }
        let cwd: String = match data(row.host.tmux_cwd, "tmux cwd") {
            Ok(value) => value,
            Err(error) => return Err(error),
        };
        let pane: String = match data(row.host.tmux_pane, "tmux pane") {
            Ok(value) => value,
            Err(error) => return Err(error),
        };
        Orchestrator::restore_tmux(storage, target, cwd, pane)
    };
    let orchestrator: Orchestrator = match restored {
        Ok(value) => value,
        Err(error) => return Err(error),
    };
    if id <= 0 {
        return Err(Error::CorruptData(about("invalid process id ", id, "")));
    }
    if label.as_str().is_empty() {
        return Err(Error::CorruptData(about("process ", id, " has an empty label")));
    }
    let started_at: Timestamp = from_millis(started);
    match completion(state) {
        Some((finished_at, _)) => {
            if finished_at.nanos < started_at.nanos {
                return Err(
                    Error::CorruptData(about("process ", id, " finished before it started")),
                );
            }
        },
        None => {},
    }
    Ok(ProcessRun::hydrate(storage, id, label, started_at, state, orchestrator))
}

/// Whether a joined row is the expected one.
fn is_row(found: Option<i64>, target: i64) -> (r: bool)
    ensures
        r == (found == Some(target)),
{
    match found {
        Some(id) => id == target,
        None => false,
    }
}

/// Decodes the row of an agent.
pub fn decode_agent(row: AgentRow, storage: Storage) -> (r: Result<AgentRun, Error>)
    ensures
        decoded(agent_fault(row), agent_of(row, storage), r),
{
    proof {
        reveal_strlit("");
        lemma_reference_names();
    }
    let id: i64 = match data(row.id, "agent id") {
        Ok(value) => value,
        Err(error) => return Err(error),
    };
    let kind: String = match data(row.kind, "agent kind") {
        Ok(value) => value,
        Err(error) => return Err(error),
    };
    let started: i64 = match data(row.started_at, "agent started_at") {
        Ok(value) => value,
        Err(error) => return Err(error),
    };
    let (status, acknowledged) = match decode_agent_state_at(row.state) {
        Ok(value) => value,
        Err(error) => return Err(error),
    };
    let shell: i64 = match data(row.host.shell, "agent shell flag") {
        Ok(value) => value,
        Err(error) => return Err(error),
    };
    let tmux: i64 = match data(row.host.tmux, "agent tmux flag") {
        Ok(value) => value,
        Err(error) => return Err(error),
    };
    let target: i64 = match data(row.host.orchestrator_id, "agent orchestrator id") {
        Ok(value) => value,
        Err(error) => return Err(error),
    };
    if id <= 0 {
        return Err(Error::CorruptData(about("invalid agent id ", id, "")));
    }
    if is_blank(kind.as_str()) {
        return Err(Error::CorruptData(about("agent ", id, " has a blank kind")));
    }
    if started < 0 {
        return Err(Error::CorruptData(about("agent ", id, " has invalid started_at")));
    }
    if !flags_valid(shell, tmux) {
        return Err(Error::CorruptData(about("agent ", id, " has invalid orchestrator flags")));
    }
    let restored: Result<Orchestrator, Error> = if shell == 1 {
        let found: Option<i64> = match data(row.host.shell_id, "agent shell id") {
            Ok(value) => value,
            Err(error) => return Err(error),
        };
        if !is_row(found, target) {
            return Err(agent_dangling(id, "shells", target));
        }
        let cwd: String = match data(row.host.shell_cwd, "agent shell cwd") {
            Ok(value) => value,
            Err(error) => return Err(error),
        };
        Orchestrator::restore_shell(storage, target, cwd)
    } else {
        let found: Option<i64> = match data(row.host.tmux_id, "agent tmux id") {
            Ok(value) => value,
            Err(error) => return Err(error),
        };
        if !is_row(found, target) {
            return Err(agent_dangling(id, "tmux", target));
        }
        let cwd: String = match data(row.host.tmux_cwd, "agent tmux cwd") {
            Ok(value) => value,
            Err(error) => return Err(error),
        };
        let pane: String = match data(row.host.tmux_pane, "agent tmux pane") {
            Ok(value) => value,
            Err(error) => return Err(error),
        };
        Orchestrator::restore_tmux(storage, target, cwd, pane)
    };
    let orchestrator: Orchestrator = match restored {
        Ok(value) => value,
        Err(error) => return Err(error),
    };
    Ok(
        AgentRun::hydrate(
            storage,
            id,
            kind,
            from_millis(started),
            status,
            acknowledged,
            orchestrator,
        ),
    )
}

/// The names of the columns that refer to a host.
proof fn lemma_reference_names()
    ensures
        "agent "@ + "shell flag"@ == "agent shell flag"@,
        "agent "@ + "tmux flag"@ == "agent tmux flag"@,
        "agent "@ + "orchestrator id"@ == "agent orchestrator id"@,
        "agent "@ + "shell id"@ == "agent shell id"@,
        "agent "@ + "shell cwd"@ == "agent shell cwd"@,
        "agent "@ + "tmux id"@ == "agent tmux id"@,
        "agent "@ + "tmux cwd"@ == "agent tmux cwd"@,
        "agent "@ + "tmux pane"@ == "agent tmux pane"@,
        "process"@ + " "@ == "process "@,
        "agent"@ + " "@ == "agent "@,
{
    reveal_strlit("agent ");
    reveal_strlit("agent");
    reveal_strlit("process");
    reveal_strlit("process ");
    reveal_strlit(" ");
    reveal_strlit("shell flag");
    reveal_strlit("tmux flag");
    reveal_strlit("orchestrator id");
    reveal_strlit("shell id");
    reveal_strlit("shell cwd");
    reveal_strlit("tmux id");
    reveal_strlit("tmux cwd");
    reveal_strlit("tmux pane");
    reveal_strlit("agent shell flag");
    reveal_strlit("agent tmux flag");
    reveal_strlit("agent orchestrator id");
    reveal_strlit("agent shell id");
    reveal_strlit("agent shell cwd");
    reveal_strlit("agent tmux id");
    reveal_strlit("agent tmux cwd");
    reveal_strlit("agent tmux pane");
}

} // verus!
