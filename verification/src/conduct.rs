//! What the commands of the program come to, from the command to the last answer.

use vstd::prelude::*;
use vstd::string::*;

use crate::agent::{AgentRun, AgentStatus};
use crate::cli::{
    agent_begins, agent_previewed, database_path, launched, process_begins, process_previewed,
    turns, AgentCommand, AgentPurpose, Ask, Command, FocusWait, Launch, ProcessCommand,
    ProcessPurpose, Reply, Task, Turn,
};
use crate::command_line::trackable;
use crate::effects::effect;
use crate::error::{Error, NavigationError};
use crate::orchestrator::{variable, Environment, Orchestrator};
use crate::process::{ProcessRun, ProcessState};
use crate::query::{AgentQuery, ProcessQuery};
use crate::report::{agent_fields, escaped, process_fields, row_text};
use crate::storage::{Job, Storage};
use crate::tables::Tables;
use crate::text::{blank, signed, texts};
use crate::time::Timestamp;
use crate::transaction::Outcome;

verus! {

/// Finishing a command writes its exit code, as it was given, to the command that was
/// found under its number.
pub proof fn finishing_writes_the_exit_code(
    id: i64,
    exit_code: i32,
    storage: Storage,
    env: Environment,
    first: Turn,
    found: Vec<ProcessRun>,
    now: Timestamp,
    r: Turn,
)
    requires
        0 < id,
        0 <= exit_code <= 255,
        found@.len() > 0,
        process_begins(ProcessCommand::Finish { id, exit_code }, storage, false, env, first),
        first is Ask ==> turns(first->rest, storage, Reply::Processes(Ok(found)), now, r),
    ensures
        first is Ask && first->ask == Ask::Processes(ProcessQuery::One { id }),
        r is Ask && (r->ask matches Ask::Write(Job::FinishProcess { id: number, exit_status })
            && number == found@[0].id && exit_status == exit_code),
{
}

/// The names of the statuses are told apart.
proof fn lemma_status_names()
    ensures
        "idle"@ != "working"@ && "idle"@ != "waiting"@ && "idle"@ != "done"@ && "idle"@
            != "killed"@,
        "working"@ != "waiting"@ && "working"@ != "done"@ && "working"@ != "killed"@,
        "waiting"@ != "done"@ && "waiting"@ != "killed"@,
        "done"@ != "killed"@,
{
    reveal_strlit("idle");
    reveal_strlit("working");
    reveal_strlit("waiting");
    reveal_strlit("done");
    reveal_strlit("killed");
    assert("idle"@[0] == 'i' && "working"@[0] == 'w' && "waiting"@[0] == 'w' && "done"@[0] == 'd'
        && "killed"@[0] == 'k');
    assert("working"@[1] == 'o' && "waiting"@[1] == 'a');
}

/// Reporting the status of an agent writes the status with the given name to the agent
/// that was found under its number.
pub proof fn reporting_writes_the_named_status(
    id: i64,
    status: String,
    wanted: AgentStatus,
    storage: Storage,
    env: Environment,
    first: Turn,
    found: Vec<AgentRun>,
    now: Timestamp,
    r: Turn,
)
    requires
        0 < id,
        found@.len() > 0,
        match wanted {
            AgentStatus::Idle => status@ == "idle"@,
            AgentStatus::Working => status@ == "working"@,
            AgentStatus::Waiting => status@ == "waiting"@,
            AgentStatus::Done => status@ == "done"@,
            AgentStatus::Killed => status@ == "killed"@,
        },
        agent_begins(AgentCommand::Status { id, status }, storage, false, env, first),
        first is Ask ==> turns(first->rest, storage, Reply::Agents(Ok(found)), now, r),
    ensures
        first is Ask && first->ask == Ask::Agents(AgentQuery::One { id }),
        r is Ask && r->ask == Ask::Write(Job::SetStatusAgent { id: found@[0].id, status: wanted }),
{
    lemma_status_names();
    assert(crate::agent::status_text(wanted) == status@);
}

/// A status that has no such name is refused, and nothing is asked.
pub proof fn unnamed_statuses_are_refused(
    id: i64,
    status: String,
    storage: Storage,
    dry_run: bool,
    env: Environment,
    first: Turn,
)
    requires
        status@ != "idle"@,
        status@ != "working"@,
        status@ != "waiting"@,
        status@ != "done"@,
        status@ != "killed"@,
        agent_begins(AgentCommand::Status { id, status }, storage, dry_run, env, first),
    ensures
        first matches Turn::Fail(Error::Invalid(_)),
{
}

/// Acknowledging a command writes that to the command that was found under its number.
pub proof fn acknowledging_writes_to_the_command(
    id: i64,
    storage: Storage,
    env: Environment,
    first: Turn,
    found: Vec<ProcessRun>,
    now: Timestamp,
    r: Turn,
)
    requires
        0 < id,
        found@.len() > 0,
        process_begins(ProcessCommand::Acknowledge { id }, storage, false, env, first),
        first is Ask ==> turns(first->rest, storage, Reply::Processes(Ok(found)), now, r),
    ensures
        first is Ask && first->ask == Ask::Processes(ProcessQuery::One { id }),
        r is Ask && r->ask == Ask::Write(Job::AcknowledgeProcess { id: found@[0].id }),
{
}

/// Acknowledging an agent writes that to the agent that was found under its number.
pub proof fn acknowledging_writes_to_the_agent(
    id: i64,
    storage: Storage,
    env: Environment,
    first: Turn,
    found: Vec<AgentRun>,
    now: Timestamp,
    r: Turn,
)
    requires
        0 < id,
        found@.len() > 0,
        agent_begins(AgentCommand::Acknowledge { id }, storage, false, env, first),
        first is Ask ==> turns(first->rest, storage, Reply::Agents(Ok(found)), now, r),
    ensures
        first is Ask && first->ask == Ask::Agents(AgentQuery::One { id }),
        r is Ask && r->ask == Ask::Write(Job::AcknowledgeAgent { id: found@[0].id }),
{
}

/// Asking for an item prints one line, the row of the item that was found under the
/// number, in a dry run and otherwise.
pub proof fn shown_items_are_printed(
    id: i64,
    dry_run: bool,
    storage: Storage,
    env: Environment,
    now: Timestamp,
    process_first: Turn,
    processes: Vec<ProcessRun>,
    process_turn: Turn,
    agent_first: Turn,
    agents: Vec<AgentRun>,
    agent_turn: Turn,
)
    requires
        0 < id,
        processes@.len() > 0,
        agents@.len() > 0,
        process_begins(ProcessCommand::Get { id }, storage, dry_run, env, process_first),
        process_first is Ask ==> turns(
            process_first->rest,
            storage,
            Reply::Processes(Ok(processes)),
            now,
            process_turn,
        ),
        agent_begins(AgentCommand::Get { id }, storage, dry_run, env, agent_first),
        agent_first is Ask ==> turns(
            agent_first->rest,
            storage,
            Reply::Agents(Ok(agents)),
            now,
            agent_turn,
        ),
    ensures
        process_first is Ask && process_first->ask == Ask::Processes(ProcessQuery::One { id }),
        process_turn matches Turn::Print(lines) && lines@.len() == 1 && lines@[0]@ == row_text(
            process_fields(processes@[0].shown(), now),
        ),
        agent_first is Ask && agent_first->ask == Ask::Agents(AgentQuery::One { id }),
        agent_turn matches Turn::Print(lines) && lines@.len() == 1 && lines@[0]@ == row_text(
            agent_fields(agents@[0].shown(), now),
        ),
{
}

/// A list of commands is that of the running ones or of all, and takes one line for
/// each, in the order in which they were found.
pub proof fn listed_commands_are_printed(
    active: bool,
    dry_run: bool,
    storage: Storage,
    env: Environment,
    now: Timestamp,
    first: Turn,
    found: Vec<ProcessRun>,
    r: Turn,
)
    requires
        process_begins(ProcessCommand::List { active }, storage, dry_run, env, first),
        first is Ask ==> turns(first->rest, storage, Reply::Processes(Ok(found)), now, r),
    ensures
        first is Ask && (active ==> first->ask == Ask::Processes(ProcessQuery::Running)) && (
        !active ==> first->ask == Ask::Processes(ProcessQuery::All)),
        r matches Turn::Print(lines) && lines@.len() == found@.len() && forall|i: int|
            0 <= i < found@.len() ==> (#[trigger] lines@[i])@ == row_text(
                process_fields(found@[i].shown(), now),
            ),
{
    let lines = r->Print_0@;
    assert(texts(lines).len() == lines.len());
    assert forall|i: int| 0 <= i < found@.len() implies (#[trigger] lines[i])@ == row_text(
        process_fields(found@[i].shown(), now),
    ) by {
        assert(texts(lines)[i] == lines[i]@);
    }
}

/// A list of agents is that of the active ones or of all, and takes one line for each,
/// in the order in which they were found.
pub proof fn listed_agents_are_printed(
    active: bool,
    dry_run: bool,
    storage: Storage,
    env: Environment,
    now: Timestamp,
    first: Turn,
    found: Vec<AgentRun>,
    r: Turn,
)
    requires
        agent_begins(AgentCommand::List { active }, storage, dry_run, env, first),
        first is Ask ==> turns(first->rest, storage, Reply::Agents(Ok(found)), now, r),
    ensures
        first is Ask && (active ==> first->ask == Ask::Agents(AgentQuery::Active)) && (!active
            ==> first->ask == Ask::Agents(AgentQuery::All)),
        r matches Turn::Print(lines) && lines@.len() == found@.len() && forall|i: int|
            0 <= i < found@.len() ==> (#[trigger] lines@[i])@ == row_text(
                agent_fields(found@[i].shown(), now),
            ),
{
    let lines = r->Print_0@;
    assert(texts(lines).len() == lines.len());
    assert forall|i: int| 0 <= i < found@.len() implies (#[trigger] lines[i])@ == row_text(
        agent_fields(found@[i].shown(), now),
    ) by {
        assert(texts(lines)[i] == lines[i]@);
    }
}

/// Whether a variable has a value in a list: it is not empty, and no other with the
/// same name stands before it.
pub open spec fn has_value(vars: Seq<(String, String)>, key: Seq<char>, value: Seq<char>) -> bool {
    value.len() > 0 && exists|i: int|
        0 <= i < vars.len() && (#[trigger] vars[i]).0@ == key && vars[i].1@ == value && forall|j:
            int|
            0 <= j < i ==> (#[trigger] vars[j]).0@ != key
}

/// A variable of the environment is the first one with its name, where that is not
/// empty.
pub proof fn variables_have_their_first_value(vars: Seq<(String, String)>, key: Seq<char>)
    ensures
        forall|value: Seq<char>| #[trigger]
            has_value(vars, key, value) <==> variable(vars, key) == Some(value),
    decreases vars.len(),
{
    if vars.len() > 0 {
        let rest = vars.drop_first();
        variables_have_their_first_value(rest, key);
        assert forall|value: Seq<char>| #[trigger] has_value(vars, key, value) <==> variable(
            vars,
            key,
        ) == Some(value) by {
            if vars[0].0@ == key {
                if has_value(vars, key, value) {
                    let i = choose|i: int|
                        0 <= i < vars.len() && (#[trigger] vars[i]).0@ == key && vars[i].1@ == value
                            && forall|j: int| 0 <= j < i ==> (#[trigger] vars[j]).0@ != key;
                    if i > 0 {
                        assert(vars[0].0@ != key);
                    }
                }
                if variable(vars, key) == Some(value) {
                    assert(vars[0].1@ == value);
                }
            } else {
                if has_value(vars, key, value) {
                    let i = choose|i: int|
                        0 <= i < vars.len() && (#[trigger] vars[i]).0@ == key && vars[i].1@ == value
                            && forall|j: int| 0 <= j < i ==> (#[trigger] vars[j]).0@ != key;
                    assert(rest[i - 1] == vars[i]);
                    assert forall|j: int| 0 <= j < i - 1 implies (#[trigger] rest[j]).0@ != key by {
                        assert(vars[j + 1] == rest[j]);
                    }
                    assert(has_value(rest, key, value));
                }
                if has_value(rest, key, value) {
                    let i = choose|i: int|
                        0 <= i < rest.len() && (#[trigger] rest[i]).0@ == key && rest[i].1@ == value
                            && forall|j: int| 0 <= j < i ==> (#[trigger] rest[j]).0@ != key;
                    assert(vars[i + 1] == rest[i]);
                    assert forall|j: int| 0 <= j < i + 1 implies (#[trigger] vars[j]).0@ != key by {
                        if j > 0 {
                            assert(vars[j] == rest[j - 1]);
                        }
                    }
                    assert(has_value(vars, key, value));
                }
            }
        }
    }
}

/// Whether a pane is the one that the environment names: there is none unless both
/// the server and the pane are named.
pub open spec fn started_in(vars: Seq<(String, String)>, pane: Option<String>) -> bool {
    let in_tmux = exists|server: Seq<char>| #[trigger] has_value(vars, "TMUX"@, server);
    match pane {
        Some(name) => in_tmux && has_value(vars, "TMUX_PANE"@, name@),
        None => !in_tmux || forall|name: Seq<char>| !#[trigger] has_value(vars, "TMUX_PANE"@, name),
    }
}

proof fn lemma_started_in(vars: Seq<(String, String)>, pane: Option<String>)
    requires
        crate::orchestrator::some_text(pane) == crate::orchestrator::current_pane(vars),
    ensures
        started_in(vars, pane),
{
    variables_have_their_first_value(vars, "TMUX"@);
    variables_have_their_first_value(vars, "TMUX_PANE"@);
    match variable(vars, "TMUX"@) {
        Some(server) => {
            assert(has_value(vars, "TMUX"@, server));
        },
        None => {},
    }
    match variable(vars, "TMUX_PANE"@) {
        Some(name) => {
            assert(has_value(vars, "TMUX_PANE"@, name));
        },
        None => {},
    }
}

/// Starting a command writes it with its whole text, the working directory and the
/// pane that it is started in, and prints nothing but the number that it was given.
pub proof fn started_commands_are_written(
    command: String,
    directory: String,
    storage: Storage,
    env: Environment,
    first: Turn,
    run: ProcessRun,
    now: Timestamp,
    r: Turn,
)
    requires
        !blank(command@),
        env.cwd == Ok::<String, String>(directory),
        process_begins(ProcessCommand::Start { command }, storage, false, env, first),
        first is Ask ==> turns(
            first->rest,
            storage,
            Reply::Written(Ok(Outcome::Started(run))),
            now,
            r,
        ),
    ensures
        first is Ask && (first->ask matches Ask::Write(Job::StartProcess { label, cwd, pane })
            && label@ == command@ && cwd@ == directory@ && started_in(env.vars@, pane)),
        r matches Turn::Print(lines) && lines@.len() == 1 && lines@[0]@ == signed(run.id as int),
{
    match first->ask {
        Ask::Write(Job::StartProcess { label, cwd, pane }) => {
            lemma_started_in(env.vars@, pane);
        },
        _ => {},
    }
}

/// Registering an agent writes it with its kind, the working directory and the pane
/// that it is registered in, and prints nothing but the number that it was given.
pub proof fn registered_agents_are_written(
    kind: String,
    directory: String,
    storage: Storage,
    env: Environment,
    first: Turn,
    run: AgentRun,
    now: Timestamp,
    r: Turn,
)
    requires
        !blank(kind@),
        env.cwd == Ok::<String, String>(directory),
        agent_begins(AgentCommand::Register { kind }, storage, false, env, first),
        first is Ask ==> turns(
            first->rest,
            storage,
            Reply::Written(Ok(Outcome::Registered(run))),
            now,
            r,
        ),
    ensures
        first is Ask && (first->ask matches Ask::Write(Job::CreateAgent { kind: written, cwd, pane })
            && written@ == kind@ && cwd@ == directory@ && started_in(env.vars@, pane)),
        r matches Turn::Print(lines) && lines@.len() == 1 && lines@[0]@ == signed(run.id as int),
{
    match first->ask {
        Ask::Write(Job::CreateAgent { kind: written, cwd, pane }) => {
            lemma_started_in(env.vars@, pane);
        },
        _ => {},
    }
}

/// A label or a kind of nothing but white space is refused, and nothing is asked.
pub proof fn blank_texts_are_refused(
    text: String,
    storage: Storage,
    env: Environment,
    process_turn: Turn,
    agent_turn: Turn,
)
    requires
        blank(text@),
        process_begins(
            ProcessCommand::Start { command: text },
            storage,
            false,
            env,
            process_turn,
        ),
        agent_begins(AgentCommand::Register { kind: text }, storage, false, env, agent_turn),
    ensures
        process_turn matches Turn::Fail(Error::Invalid(reason)) && reason@
            == "command label is empty"@,
        agent_turn matches Turn::Fail(Error::Invalid(reason)) && reason@
            == "agent kind is empty"@,
{
}

/// A number that is not positive is refused, and nothing is asked.
pub proof fn other_numbers_are_refused(
    id: i64,
    command: ProcessCommand,
    agent_command: AgentCommand,
    dry_run: bool,
    storage: Storage,
    env: Environment,
    process_turn: Turn,
    agent_turn: Turn,
)
    requires
        id <= 0,
        match command {
            ProcessCommand::Finish { id: number, exit_code } => number == id && 0 <= exit_code
                <= 255,
            ProcessCommand::Get { id: number } => number == id,
            ProcessCommand::Acknowledge { id: number } => number == id,
            ProcessCommand::Focus { id: number, .. } => number == id,
            _ => false,
        },
        match agent_command {
            AgentCommand::Status { id: number, .. } => number == id,
            AgentCommand::Get { id: number } => number == id,
            AgentCommand::Acknowledge { id: number } => number == id,
            AgentCommand::Focus { id: number, .. } => number == id,
            _ => false,
        },
        process_begins(command, storage, dry_run, env, process_turn),
        agent_begins(agent_command, storage, dry_run, env, agent_turn),
    ensures
        process_turn matches Turn::Fail(Error::Invalid(reason)) && reason@ == "process id "@
            + signed(id as int) + " must be positive"@,
        agent_turn matches Turn::Fail(Error::Invalid(reason)) && reason@ == "agent id "@ + signed(
            id as int,
        ) + " must be positive"@,
{
}

/// An exit code that no command can have is refused, and nothing is asked.
pub proof fn other_exit_codes_are_refused(
    id: i64,
    exit_code: i32,
    dry_run: bool,
    storage: Storage,
    env: Environment,
    r: Turn,
)
    requires
        exit_code < 0 || 255 < exit_code,
        process_begins(ProcessCommand::Finish { id, exit_code }, storage, dry_run, env, r),
    ensures
        r matches Turn::Fail(Error::Invalid(reason)) && (0 < id || dry_run ==> reason@
            == "exit code "@ + signed(exit_code as int) + " is outside 0..=255"@),
{
}

/// Where nothing is found under a number, the command fails with that number; and
/// where the database fails, with its error.
pub proof fn missing_items_are_reported(
    id: i64,
    purpose: ProcessPurpose,
    agent_purpose: AgentPurpose,
    dry_run: bool,
    storage: Storage,
    processes: Result<Vec<ProcessRun>, Error>,
    agents: Result<Vec<AgentRun>, Error>,
    now: Timestamp,
    process_turn: Turn,
    agent_turn: Turn,
)
    requires
        turns(
            Task::Process { id, purpose, dry_run },
            storage,
            Reply::Processes(processes),
            now,
            process_turn,
        ),
        turns(
            Task::Agent { id, agent_purpose, dry_run },
            storage,
            Reply::Agents(agents),
            now,
            agent_turn,
        ),
    ensures
        processes matches Ok(found) && found@.len() == 0 ==> process_turn
            == Turn::Fail(Error::NotFound(id)),
        processes matches Err(error) ==> (process_turn matches Turn::Fail(reason) && reason@
            == error@),
        agents matches Ok(found) && found@.len() == 0 ==> agent_turn
            == Turn::Fail(Error::AgentNotFound(id)),
        agents matches Err(error) ==> (agent_turn matches Turn::Fail(reason) && reason@ == error@),
{
}

/// Whether a state is the acknowledgment of the end that another one tells of.
pub open spec fn acknowledges(before: ProcessState, after: ProcessState) -> bool {
    match (before, after) {
        (
            ProcessState::Finished { finished_at, exit_status },
            ProcessState::Acknowledged { finished_at: time, exit_status: status },
        ) => time == finished_at && status == exit_status,
        _ => false,
    }
}

/// What was written is printed: the row of the command with the state that storage
/// reports, unless storage had to refuse.
pub proof fn written_states_are_printed(
    process: ProcessRun,
    written: Result<Outcome, Error>,
    storage: Storage,
    now: Timestamp,
    r: Turn,
)
    requires
        turns(Task::ProcessWrite { process }, storage, Reply::Written(written), now, r),
        written matches Ok(outcome) ==> outcome is State,
    ensures
        match written {
            Err(error) => r == Turn::Fail(error),
            Ok(Outcome::State(state)) => {
                (process.state is Running || acknowledges(process.state, state)) ==> (r matches
                    Turn::Print(lines) && lines@.len() == 1 && lines@[0]@ == row_text(
                    process_fields((ProcessRun { state, ..process }).shown(), now),
                ))
            },
            Ok(_) => true,
        },
{
}

/// What was written is printed: the row of the agent with the status that storage
/// reports, unless storage had to refuse.
pub proof fn written_statuses_are_printed(
    agent: AgentRun,
    written: Result<Outcome, Error>,
    storage: Storage,
    now: Timestamp,
    r: Turn,
)
    requires
        turns(Task::AgentWrite { agent }, storage, Reply::Written(written), now, r),
        written matches Ok(outcome) ==> outcome is AgentState,
    ensures
        match written {
            Err(error) => r == Turn::Fail(error),
            Ok(Outcome::AgentState { status, acknowledged }) => {
                (agent.status == AgentStatus::Idle || agent.status == status || (agent.status
                    != AgentStatus::Killed && status != AgentStatus::Idle)) && (acknowledged
                    ==> status == AgentStatus::Done) ==> (r matches Turn::Print(lines)
                    && lines@.len() == 1 && lines@[0]@ == row_text(
                    agent_fields((AgentRun { status, acknowledged, ..agent }).shown(), now),
                ))
            },
            Ok(_) => true,
        },
{
}

/// How the focus of a command goes on: tmux that fails ends it, a running command is
/// left as it is, one that has ended is acknowledged, and at the end the target is
/// printed before the row. Nothing else is ever written.
pub proof fn focused_commands_are_acknowledged_once_they_ended(
    process: ProcessRun,
    wait: FocusWait,
    storage: Storage,
    reply: Reply,
    now: Timestamp,
    r: Turn,
)
    requires
        (Task::ProcessFocus { process, wait }).awaits(reply),
        turns(Task::ProcessFocus { process, wait }, storage, reply, now, r),
    ensures
        r matches Turn::Ask { ask: Ask::Write(job), .. } ==> job == (Job::AcknowledgeProcess {
            id: process.id,
        }),
        r matches Turn::Ask { ask: Ask::ProcessState(id), .. } ==> id == process.id,
        match (wait, reply) {
            (FocusWait::Tmux { .. }, Reply::Tmux(Err(reason))) => process.orchestrator is Tmux
                ==> r == Turn::Fail(Error::Navigation(NavigationError::Failed(reason))),
            (FocusWait::Read { target }, Reply::ProcessState(answer)) => match answer {
                Err(error) => process.state is Running ==> r == Turn::Fail(error),
                Ok(state) => process.state is Running ==> if state is Running {
                    r matches Turn::Print(lines) && lines@.len() == 1 && lines@[0]@ == escaped(
                        target@,
                    ) + "\t"@ + row_text(process_fields(process.shown(), now))
                } else {
                    r is Ask && r->ask == Ask::Write(Job::AcknowledgeProcess { id: process.id })
                },
            },
            (FocusWait::Written { target }, Reply::Written(written)) => match written {
                Err(error) => r == Turn::Fail(error),
                Ok(Outcome::State(state)) => acknowledges(process.state, state) ==> (r matches
                    Turn::Print(lines) && lines@.len() == 1 && lines@[0]@ == escaped(target@)
                    + "\t"@ + row_text(
                    process_fields((ProcessRun { state, ..process }).shown(), now),
                )),
                Ok(_) => true,
            },
            _ => true,
        },
{
}

/// How the focus of an agent goes on: tmux that fails ends it, on arrival it is
/// acknowledged if it is done, and at the end the target is printed before the row.
/// Nothing else is ever written.
pub proof fn focused_agents_are_acknowledged_if_done(
    agent: AgentRun,
    wait: FocusWait,
    storage: Storage,
    reply: Reply,
    now: Timestamp,
    r: Turn,
)
    requires
        (Task::AgentFocus { agent, wait }).awaits(reply),
        turns(Task::AgentFocus { agent, wait }, storage, reply, now, r),
    ensures
        r matches Turn::Ask { ask: Ask::Write(job), .. } ==> job == (Job::AcknowledgeAgentIfDone {
            id: agent.id,
        }),
        match (wait, reply) {
            (FocusWait::Tmux { .. }, Reply::Tmux(Err(reason))) => agent.orchestrator is Tmux ==> r
                == Turn::Fail(Error::Navigation(NavigationError::Failed(reason))),
            (FocusWait::Written { target }, Reply::Written(written)) => match written {
                Err(error) => r == Turn::Fail(error),
                Ok(Outcome::AgentState { status, acknowledged }) => status == agent.status && (
                acknowledged ==> status == AgentStatus::Done) ==> (r matches Turn::Print(lines)
                    && lines@.len() == 1 && lines@[0]@ == escaped(target@) + "\t"@ + row_text(
                    agent_fields((AgentRun { acknowledged, ..agent }).shown(), now),
                )),
                Ok(_) => true,
            },
            _ => true,
        },
{
}

/// A focus that was asked for begins with a list of the panes of all sessions where
/// the item was started in tmux, and fails where it was started in a shell. Nothing is
/// written before tmux was asked.
pub proof fn focus_begins_with_the_panes(
    id: i64,
    args: Vec<String>,
    process: ProcessRun,
    agent: AgentRun,
    storage: Storage,
    now: Timestamp,
    processes: Vec<ProcessRun>,
    agents: Vec<AgentRun>,
    process_turn: Turn,
    agent_turn: Turn,
)
    requires
        args@.len() == 0,
        processes@.len() > 0 && processes@[0] == process,
        agents@.len() > 0 && agents@[0] == agent,
        turns(
            Task::Process { id, purpose: ProcessPurpose::Focus { args }, dry_run: false },
            storage,
            Reply::Processes(Ok(processes)),
            now,
            process_turn,
        ),
        turns(
            Task::Agent { id, agent_purpose: AgentPurpose::Focus { args }, dry_run: false },
            storage,
            Reply::Agents(Ok(agents)),
            now,
            agent_turn,
        ),
    ensures
        process.orchestrator is Tmux ==> process_turn is Ask && (
        process_turn->ask matches Ask::Tmux(run) && texts(run@)
            == seq!["list-panes"@, "-a"@, "-F"@, "#{pane_id}\t#{session_name}:#{window_index}.#{pane_index}"@]),
        process.orchestrator is Shell ==> process_turn matches Turn::Fail(
            Error::Navigation(NavigationError::Unavailable(_)),
        ),
        agent.orchestrator is Tmux ==> agent_turn is Ask && (agent_turn->ask matches Ask::Tmux(run)
            && texts(run@)
            == seq!["list-panes"@, "-a"@, "-F"@, "#{pane_id}\t#{session_name}:#{window_index}.#{pane_index}"@]),
        agent.orchestrator is Shell ==> agent_turn matches Turn::Fail(
            Error::Navigation(NavigationError::Unavailable(_)),
        ),
{
    assert(texts(args@) =~= Seq::empty());
}

/// A dry run says exactly what would come of writing: it fails with the same error
/// where storage would refuse, and prints the row as it stands otherwise.
pub proof fn dry_runs_foretell_what_is_written(
    t: Tables,
    storage: Storage,
    id: i64,
    process: ProcessRun,
    purpose: ProcessPurpose,
    at: Timestamp,
    now: Timestamp,
    r: Turn,
)
    requires
        t.processes.contains_key(id),
        process.state == t.processes[id].state(),
        process_previewed(id, process, purpose, now, r),
        purpose is Finish || purpose is Acknowledge,
    ensures
        ({
            let job = match purpose {
                ProcessPurpose::Finish { status } => Job::FinishProcess {
                    id,
                    exit_status: status,
                },
                _ => Job::AcknowledgeProcess { id },
            };
            match effect(t, storage, job, at).1 {
                Err(error) => r matches Turn::Fail(reason) && reason@ == error,
                Ok(_) => r matches Turn::Print(lines) && lines@.len() == 1 && lines@[0]@
                    == row_text(process_fields(process.shown(), now)),
            }
        }),
{
}

/// A dry run says exactly what would come of writing: it fails with the same error
/// where storage would refuse, and prints the row as it stands otherwise.
pub proof fn dry_runs_foretell_what_agents_become(
    t: Tables,
    storage: Storage,
    id: i64,
    agent: AgentRun,
    purpose: AgentPurpose,
    at: Timestamp,
    now: Timestamp,
    r: Turn,
)
    requires
        t.agents.contains_key(id),
        (agent.status, agent.acknowledged) == t.agents[id].state(),
        agent_previewed(id, agent, purpose, now, r),
        purpose is Report || purpose is Acknowledge,
    ensures
        ({
            let job = match purpose {
                AgentPurpose::Report { status } => Job::SetStatusAgent { id, status },
                _ => Job::AcknowledgeAgent { id },
            };
            match effect(t, storage, job, at).1 {
                Err(error) => r matches Turn::Fail(reason) && reason@ == error,
                Ok(_) => r matches Turn::Print(lines) && lines@.len() == 1 && lines@[0]@
                    == row_text(agent_fields(agent.shown(), now)),
            }
        }),
{
}

/// Where something is focused in a dry run, the host is named with its directory
/// before the row, and tmux is not asked.
pub proof fn dry_runs_name_the_destination(
    id: i64,
    process: ProcessRun,
    agent: AgentRun,
    args: Vec<String>,
    now: Timestamp,
    process_turn: Turn,
    agent_turn: Turn,
)
    requires
        process_previewed(id, process, ProcessPurpose::Focus { args }, now, process_turn),
        agent_previewed(id, agent, AgentPurpose::Focus { args }, now, agent_turn),
    ensures
        process_turn matches Turn::Print(lines) && lines@.len() == 1 && lines@[0]@ == escaped(
            match process.orchestrator {
                Orchestrator::Shell(shell) => "shell"@ + " ("@ + shell.cwd@ + ")"@,
                Orchestrator::Tmux(tmux) => "tmux "@ + tmux.pane@ + " ("@ + tmux.cwd@ + ")"@,
            },
        ) + "\t"@ + row_text(process_fields(process.shown(), now)),
        agent_turn matches Turn::Print(lines) && lines@.len() == 1 && lines@[0]@ == escaped(
            match agent.orchestrator {
                Orchestrator::Shell(shell) => "shell"@ + " ("@ + shell.cwd@ + ")"@,
                Orchestrator::Tmux(tmux) => "tmux "@ + tmux.pane@ + " ("@ + tmux.cwd@ + ")"@,
            },
        ) + "\t"@ + row_text(agent_fields(agent.shown(), now)),
{
}

/// Whether a task is one that a dry run can wait with.
pub open spec fn in_dry_run(task: Task) -> bool {
    match task {
        Task::ListingProcesses | Task::ListingAgents => true,
        Task::Process { dry_run, .. } | Task::Agent { dry_run, .. } => dry_run,
        Task::ProcessPreview { .. } | Task::AgentPreview { .. } => true,
        _ => false,
    }
}

/// A dry run asks nothing but what is stored, from its first question to its last.
pub proof fn dry_runs_neither_write_nor_navigate(
    command: Command,
    storage: Storage,
    env: Environment,
    first: Turn,
    task: Task,
    reply: Reply,
    now: Timestamp,
    r: Turn,
)
    requires
        !(command is Panel),
        command matches Command::Process(command) ==> !(command is Start) && process_begins(
            command,
            storage,
            true,
            env,
            first,
        ),
        command matches Command::Agent(command) ==> !(command is Register) && agent_begins(
            command,
            storage,
            true,
            env,
            first,
        ),
        in_dry_run(task),
        task.awaits(reply),
        turns(task, storage, reply, now, r),
    ensures
        first matches Turn::Ask { ask, rest } ==> !(ask is Write) && !(ask is Tmux) && in_dry_run(
            rest,
        ),
        r matches Turn::Ask { ask, rest } ==> !(ask is Write) && !(ask is Tmux) && in_dry_run(rest),
{
}

/// A command that is started is dispatched exactly where it is tracked and this is no
/// dry run; nothing is registered in a dry run; without a command the panel is opened.
pub proof fn programs_start_as_told(command: Option<Command>, dry_run: bool)
    ensures
        command is None || command->0 is Panel <==> launched(command, dry_run) == Launch::Panel,
        command matches Some(Command::Process(ProcessCommand::Start { command: line })) ==> (
        launched(command, dry_run) == Launch::Dispatch <==> !dry_run && trackable(line@)),
        command matches Some(Command::Agent(AgentCommand::Register { .. })) ==> (launched(
            command,
            dry_run,
        ) == Launch::Dispatch <==> !dry_run),
        command matches Some(Command::Process(about)) ==> !(about is Start) ==> launched(
            command,
            dry_run,
        ) == Launch::Dispatch,
        command matches Some(Command::Agent(about)) ==> !(about is Register) ==> launched(
            command,
            dry_run,
        ) == Launch::Dispatch,
{
}

/// Where the database is: at the path that the environment names, else below the
/// directory for data that it names, else below the home directory, else below the
/// working directory.
pub proof fn databases_have_their_place(vars: Seq<(String, String)>, name: Seq<char>)
    ensures
        has_value(vars, "WORKLIGHT_DB"@, name) ==> database_path(vars) == name,
        has_value(vars, "XDG_DATA_HOME"@, name) && name.last() != '/' && (forall|other: Seq<char>|
            !#[trigger] has_value(vars, "WORKLIGHT_DB"@, other)) ==> database_path(vars) == name
            + "/worklight/worklight.db"@,
        has_value(vars, "HOME"@, name) && name.last() != '/' && (forall|other: Seq<char>|
            !#[trigger] has_value(vars, "WORKLIGHT_DB"@, other)) && (forall|other: Seq<char>|
            !#[trigger] has_value(vars, "XDG_DATA_HOME"@, other)) ==> database_path(vars) == name
            + "/.local/share/worklight/worklight.db"@,
        (forall|other: Seq<char>| !#[trigger] has_value(vars, "WORKLIGHT_DB"@, other)) && (forall|
            other: Seq<char>,
        |
            !#[trigger] has_value(vars, "XDG_DATA_HOME"@, other)) && (forall|other: Seq<char>|
            !#[trigger] has_value(vars, "HOME"@, other)) ==> database_path(vars)
            == "./.local/share/worklight/worklight.db"@,
{
    variables_have_their_first_value(vars, "WORKLIGHT_DB"@);
    variables_have_their_first_value(vars, "XDG_DATA_HOME"@);
    variables_have_their_first_value(vars, "HOME"@);
    reveal_strlit("/");
    reveal_strlit(".");
    reveal_strlit(".local/share");
    reveal_strlit("worklight/worklight.db");
    reveal_strlit("/worklight/worklight.db");
    reveal_strlit("/.local/share/worklight/worklight.db");
    reveal_strlit("./.local/share/worklight/worklight.db");
    match variable(vars, "WORKLIGHT_DB"@) {
        Some(path) => {
            assert(has_value(vars, "WORKLIGHT_DB"@, path));
        },
        None => {},
    }
    match variable(vars, "XDG_DATA_HOME"@) {
        Some(base) => {
            assert(has_value(vars, "XDG_DATA_HOME"@, base));
        },
        None => {},
    }
    match variable(vars, "HOME"@) {
        Some(home) => {
            assert(has_value(vars, "HOME"@, home));
        },
        None => {},
    }
    assert(name + "/"@ + "worklight/worklight.db"@ =~= name + "/worklight/worklight.db"@);
    let data = name + "/"@ + ".local/share"@;
    assert(data.last() == 'e');
    assert(data + "/"@ + "worklight/worklight.db"@ =~= name
        + "/.local/share/worklight/worklight.db"@);
    let here = "."@ + "/"@ + ".local/share"@;
    assert(here.last() == 'e');
    assert(here + "/"@ + "worklight/worklight.db"@ =~= "./.local/share/worklight/worklight.db"@);
}

} // verus!
