//! The commands of the program: what each of them asks of storage and of tmux,
//! and what it prints.

use vstd::prelude::*;
use vstd::string::*;

use crate::agent::{agent_synced, agent_taken, permitted, status_text, AgentRun, AgentStatus};
use crate::answers::{first_of, listed};
use crate::command_line::{should_track, trackable};
use crate::error::{about, Error, ErrorView};
use crate::focus::{FocusEvent, FocusStep};
use crate::orchestrator::{
    current_pane, kinds_are_told_apart, some_text, variable, Environment, NavigationStage, Orchestrator,
};
use crate::process::{synced, taken, ProcessRun, ProcessState};
use crate::query::{AgentQuery, ProcessQuery};
use crate::refresh::{argument_fault, validate_navigation_args};
use crate::report::{
    agent_fields, escape_field, escaped, format_agent_row, format_row, process_fields, row_text,
};
use crate::storage::{Job, Storage};
use crate::text::{blank, chars_of, debug_text, decimal, signed, texts};
use crate::time::Timestamp;
use crate::transaction::{fits, Outcome};

verus! {

/// A command about commands.
pub enum ProcessCommand {
    Start { command: String },
    Finish { id: i64, exit_code: i32 },
    Get { id: i64 },
    List { active: bool },
    Acknowledge { id: i64 },
    Focus { id: i64, navigation_args: Vec<String> },
}

/// A command about agents.
pub enum AgentCommand {
    Register { kind: String },
    Status { id: i64, status: String },
    Get { id: i64 },
    List { active: bool },
    Acknowledge { id: i64 },
    Focus { id: i64, navigation_args: Vec<String> },
}

/// A command of the program.
pub enum Command {
    Process(ProcessCommand),
    Agent(AgentCommand),
    Panel,
}

/// How the program starts.
#[derive(Clone, Copy, Debug, PartialEq, Eq, Structural)]
pub enum Launch {
    /// Print a zero, and open nothing.
    Nothing,
    /// Open the panel.
    Panel,
    /// Open storage, and dispatch the command.
    Dispatch,
}

/// How the program starts with a command: nothing is started or registered in a
/// dry run, and no command is started that is not to be tracked.
pub open spec fn launched(command: Option<Command>, dry_run: bool) -> Launch {
    match command {
        None => Launch::Panel,
        Some(Command::Panel) => Launch::Panel,
        Some(Command::Process(ProcessCommand::Start { command })) => if dry_run || !trackable(
            command@,
        ) {
            Launch::Nothing
        } else {
            Launch::Dispatch
        },
        Some(Command::Agent(AgentCommand::Register { .. })) => if dry_run {
            Launch::Nothing
        } else {
            Launch::Dispatch
        },
        _ => Launch::Dispatch,
    }
}

/// How the program starts with a command.
pub fn launch(command: &Option<Command>, dry_run: bool) -> (r: Launch)
    ensures
        r == launched(*command, dry_run),
{
    match command {
        None => Launch::Panel,
        Some(Command::Panel) => Launch::Panel,
        Some(Command::Process(ProcessCommand::Start { command })) => {
            if dry_run || !should_track(command.as_str()) {
                Launch::Nothing
            } else {
                Launch::Dispatch
            }
        },
        Some(Command::Agent(AgentCommand::Register { .. })) => {
            if dry_run {
                Launch::Nothing
            } else {
                Launch::Dispatch
            }
        },
        _ => Launch::Dispatch,
    }
}

/// Whether a command can be dispatched: the panel is opened another way, and
/// nothing is started or registered in a dry run.
pub open spec fn dispatchable(command: Command, dry_run: bool) -> bool {
    match command {
        Command::Panel => false,
        Command::Process(ProcessCommand::Start { .. }) => !dry_run,
        Command::Agent(AgentCommand::Register { .. }) => !dry_run,
        _ => true,
    }
}

/// Every command that the program is to dispatch can be dispatched.
pub proof fn launched_commands_are_dispatchable(command: Command, dry_run: bool)
    requires
        launched(Some(command), dry_run) == Launch::Dispatch,
    ensures
        dispatchable(command, dry_run),
{
}

/// Checks the number of a command.
pub fn positive(id: i64) -> (r: Result<i64, Error>)
    ensures
        match r {
            Ok(value) => id > 0 && value == id,
            Err(error) => id <= 0 && error.is_invalid(
                "process id "@ + signed(id as int) + " must be positive"@,
            ),
        },
{
    if id > 0 {
        Ok(id)
    } else {
        Err(Error::Invalid(about("process id ", id, " must be positive")))
    }
}

/// The text of an exit code that no command can have.
pub open spec fn exit_code_text(exit_code: i32) -> Seq<char> {
    "exit code "@ + signed(exit_code as int) + " is outside 0..=255"@
}

fn exit_status(exit_code: i32) -> (r: Result<u8, Error>)
    ensures
        match r {
            Ok(status) => 0 <= exit_code <= 255 && status == exit_code,
            Err(error) => !(0 <= exit_code <= 255) && error@ == ErrorView::Invalid(
                exit_code_text(exit_code),
            ),
        },
{
    if exit_code < 0 || exit_code > 255 {
        Err(Error::Invalid(about("exit code ", exit_code as i64, " is outside 0..=255")))
    } else {
        Ok(exit_code as u8)
    }
}

/// A relative path below a directory.
pub open spec fn below(base: Seq<char>, path: Seq<char>) -> Seq<char> {
    if base.len() == 0 {
        path
    } else if base.last() == '/' {
        base + path
    } else {
        base + "/"@ + path
    }
}

fn joined_path(base: String, path: &str) -> (r: String)
    ensures
        r@ == below(base@, path@),
{
    let chars: Vec<char> = chars_of(base.as_str());
    if chars.len() == 0 {
        return path.to_owned();
    }
    let mut out: String = base;
    if chars[chars.len() - 1] != '/' {
        out.append("/");
    }
    out.append(path);
    out
}

/// Where the database is by default, given the variables of the environment.
pub open spec fn database_path(vars: Seq<(String, String)>) -> Seq<char> {
    match variable(vars, "WORKLIGHT_DB"@) {
        Some(path) => path,
        None => below(
            match variable(vars, "XDG_DATA_HOME"@) {
                Some(base) => base,
                None => below(
                    match variable(vars, "HOME"@) {
                        Some(home) => home,
                        None => "."@,
                    },
                    ".local/share"@,
                ),
            },
            "worklight/worklight.db"@,
        ),
    }
}

/// Where the database is by default.
pub fn default_database(env: &Environment) -> (r: String)
    ensures
        r@ == database_path(env.vars@),
{
    match env.var("WORKLIGHT_DB") {
        Some(path) => path,
        None => {
            let base: String = match env.var("XDG_DATA_HOME") {
                Some(base) => base,
                None => {
                    let home: String = match env.var("HOME") {
                        Some(home) => home,
                        None => ".".to_owned(),
                    };
                    joined_path(home, ".local/share")
                },
            };
            joined_path(base, "worklight/worklight.db")
        },
    }
}

/// What is asked on behalf of a command.
pub enum Ask {
    Processes(ProcessQuery),
    Agents(AgentQuery),
    ProcessState(i64),
    AgentState(i64),
    Write(Job),
    Tmux(Vec<String>),
}

/// What is answered.
pub enum Reply {
    Processes(Result<Vec<ProcessRun>, Error>),
    Agents(Result<Vec<AgentRun>, Error>),
    ProcessState(Result<ProcessState, Error>),
    AgentState(Result<(AgentStatus, bool), Error>),
    Written(Result<Outcome, Error>),
    Tmux(Result<String, String>),
}

/// What is to be done with a tracked command.
pub enum ProcessPurpose {
    Show,
    Finish { status: u8 },
    Acknowledge,
    Focus { args: Vec<String> },
}

/// What is to be done with a tracked agent.
pub enum AgentPurpose {
    Show,
    Report { status: AgentStatus },
    Acknowledge,
    Focus { args: Vec<String> },
}

/// Which answer a focus waits for.
pub enum FocusWait {
    Tmux { stage: NavigationStage },
    Read { target: String },
    Written { target: String },
}

/// A command that waits for an answer.
pub enum Task {
    Starting,
    Registering,
    ListingProcesses,
    ListingAgents,
    /// The tracked command is being read.
    Process { id: i64, purpose: ProcessPurpose, dry_run: bool },
    /// The state of the tracked command is being read, to see what would happen.
    ProcessPreview { id: i64, process: ProcessRun, purpose: ProcessPurpose },
    ProcessWrite { process: ProcessRun },
    ProcessFocus { process: ProcessRun, wait: FocusWait },
    /// The tracked agent is being read.
    Agent { id: i64, agent_purpose: AgentPurpose, dry_run: bool },
    /// The status of the tracked agent is being read, to see what would happen.
    AgentPreview { id: i64, agent: AgentRun, agent_purpose: AgentPurpose },
    AgentWrite { agent: AgentRun },
    AgentFocus { agent: AgentRun, wait: FocusWait },
}

/// What to do next for a command.
pub enum Turn {
    /// Ask, and go on with the answer.
    Ask { ask: Ask, rest: Task },
    /// Print these lines; the command succeeded.
    Print(Vec<String>),
    Fail(Error),
}

/// Whether the turn asks something, to go on with a task.
pub open spec fn asks(r: Turn, ask: Ask, rest: Task) -> bool {
    r == (Turn::Ask { ask, rest })
}

/// Whether the turn is a failure with a plain error.
pub open spec fn fails(r: Turn, error: ErrorView) -> bool {
    r matches Turn::Fail(reason) && reason@ == error
}

/// Whether the turn prints one line.
pub open spec fn prints(r: Turn, line: Seq<char>) -> bool {
    r matches Turn::Print(lines) && lines@.len() == 1 && lines@[0]@ == line
}

/// The row of a command.
pub open spec fn process_line(process: ProcessRun, now: Timestamp) -> Seq<char> {
    row_text(process_fields(process.shown(), now))
}

/// The row of an agent.
pub open spec fn agent_line(agent: AgentRun, now: Timestamp) -> Seq<char> {
    row_text(agent_fields(agent.shown(), now))
}

/// A destination before a row.
pub open spec fn targeted(target: Seq<char>, row: Seq<char>) -> Seq<char> {
    escaped(target) + "\t"@ + row
}

/// How a host is named as a destination.
pub open spec fn destination(host: Orchestrator) -> Seq<char> {
    host.description() + " ("@ + host.directory() + ")"@
}

impl Task {
    /// Whether an answer is the one that the task waits for.
    pub open spec fn awaits(self, reply: Reply) -> bool {
        match self {
            Task::Starting => reply matches Reply::Written(written) && (written is Err || (
            written->Ok_0 is Started)),
            Task::Registering => reply matches Reply::Written(written) && (written is Err || (
            written->Ok_0 is Registered)),
            Task::ListingProcesses => reply is Processes,
            Task::ListingAgents => reply is Agents,
            Task::Process { .. } => reply is Processes,
            Task::ProcessPreview { .. } => reply is ProcessState,
            Task::ProcessWrite { .. } => written_process(reply),
            Task::ProcessFocus { wait, .. } => match wait {
                FocusWait::Tmux { .. } => reply is Tmux,
                FocusWait::Read { .. } => reply is ProcessState,
                FocusWait::Written { .. } => written_process(reply),
            },
            Task::Agent { .. } => reply is Agents,
            Task::AgentPreview { .. } => reply is AgentState,
            Task::AgentWrite { .. } => written_agent(reply),
            Task::AgentFocus { wait, .. } => match wait {
                FocusWait::Tmux { .. } => reply is Tmux,
                FocusWait::Read { .. } => reply is AgentState,
                FocusWait::Written { .. } => written_agent(reply),
            },
        }
    }
}

/// Whether an answer says what was written of a command.
pub open spec fn written_process(reply: Reply) -> bool {
    reply matches Reply::Written(written) && (written is Err || written->Ok_0 is State)
}

/// Whether an answer says what was written of an agent.
pub open spec fn written_agent(reply: Reply) -> bool {
    reply matches Reply::Written(written) && (written is Err || written->Ok_0 is AgentState)
}

/// The state of a command that was written.
pub open spec fn state_written(written: Result<Outcome, Error>) -> Result<ProcessState, Error> {
    match written {
        Ok(outcome) => Ok(outcome->State_0),
        Err(error) => Err(error),
    }
}

/// The status of an agent that was written.
pub open spec fn status_written(written: Result<Outcome, Error>) -> Result<
    (AgentStatus, bool),
    Error,
> {
    match written {
        Ok(outcome) => Ok((outcome->AgentState_status, outcome->AgentState_acknowledged)),
        Err(error) => Err(error),
    }
}

/// How a command about commands begins; a dry run checks the exit code before
/// the number.
pub open spec fn process_begins(
    command: ProcessCommand,
    storage: Storage,
    dry_run: bool,
    env: Environment,
    r: Turn,
) -> bool {
    match command {
        ProcessCommand::Start { command } => if blank(command@) {
            fails(r, ErrorView::Invalid("command label is empty"@))
        } else {
            match env.cwd {
                Err(reason) => r == Turn::Fail(Error::Environment(reason)),
                Ok(directory) => r matches Turn::Ask { ask, rest } && rest is Starting && (
                ask matches Ask::Write(job) && (job matches Job::StartProcess { label, cwd, pane }
                    && label@ == command@ && cwd == directory && some_text(pane) == current_pane(
                    env.vars@,
                ))),
            }
        },
        ProcessCommand::Finish { id, exit_code } => {
            let bad_code = !(0 <= exit_code <= 255);
            if bad_code && (dry_run || id > 0) {
                fails(r, ErrorView::Invalid(exit_code_text(exit_code)))
            } else {
                reads_process(id, ProcessPurpose::Finish { status: exit_code as u8 }, dry_run, r)
            }
        },
        ProcessCommand::Get { id } => reads_process(id, ProcessPurpose::Show, dry_run, r),
        ProcessCommand::List { active } => asks(
            r,
            Ask::Processes(
                if active {
                    ProcessQuery::Running
                } else {
                    ProcessQuery::All
                },
            ),
            Task::ListingProcesses,
        ),
        ProcessCommand::Acknowledge { id } => reads_process(
            id,
            ProcessPurpose::Acknowledge,
            dry_run,
            r,
        ),
        ProcessCommand::Focus { id, navigation_args } => reads_process(
            id,
            ProcessPurpose::Focus { args: navigation_args },
            dry_run,
            r,
        ),
    }
}

/// Asking for a command, whose number has to be positive.
pub open spec fn reads_process(id: i64, purpose: ProcessPurpose, dry_run: bool, r: Turn) -> bool {
    if id <= 0 {
        fails(
            r,
            ErrorView::Invalid("process id "@ + signed(id as int) + " must be positive"@),
        )
    } else {
        asks(r, Ask::Processes(ProcessQuery::One { id }), Task::Process { id, purpose, dry_run })
    }
}

/// How a command about agents begins.
pub open spec fn agent_begins(
    command: AgentCommand,
    storage: Storage,
    dry_run: bool,
    env: Environment,
    r: Turn,
) -> bool {
    match command {
        AgentCommand::Register { kind } => if blank(kind@) {
            fails(r, ErrorView::Invalid("agent kind is empty"@))
        } else {
            match env.cwd {
                Err(reason) => r == Turn::Fail(Error::Environment(reason)),
                Ok(directory) => r matches Turn::Ask { ask, rest } && rest is Registering && (
                ask matches Ask::Write(job) && (job matches Job::CreateAgent {
                    kind: written,
                    cwd,
                    pane,
                } && written@ == kind@ && cwd == directory && some_text(pane) == current_pane(
                    env.vars@,
                ))),
            }
        },
        AgentCommand::Status { id, status } => if id <= 0 {
            fails(
                r,
                ErrorView::Invalid("agent id "@ + signed(id as int) + " must be positive"@),
            )
        } else {
            match r {
                Turn::Ask { ask, rest } => {
                    &&& ask == Ask::Agents(AgentQuery::One { id })
                    &&& rest matches Task::Agent { id: number, agent_purpose, dry_run: dry }
                        && number == id && dry == dry_run && (agent_purpose matches
                        AgentPurpose::Report { status: wanted } && status@ == status_text(wanted))
                },
                _ => {
                    &&& forall|known: AgentStatus| status@ != #[trigger] status_text(known)
                    &&& fails(
                        r,
                        ErrorView::Invalid("unknown agent status "@ + debug_text(status@)),
                    )
                },
            }
        },
        AgentCommand::Get { id } => reads_agent(id, AgentPurpose::Show, dry_run, r),
        AgentCommand::List { active } => asks(
            r,
            Ask::Agents(
                if active {
                    AgentQuery::Active
                } else {
                    AgentQuery::All
                },
            ),
            Task::ListingAgents,
        ),
        AgentCommand::Acknowledge { id } => reads_agent(id, AgentPurpose::Acknowledge, dry_run, r),
        AgentCommand::Focus { id, navigation_args } => reads_agent(
            id,
            AgentPurpose::Focus { args: navigation_args },
            dry_run,
            r,
        ),
    }
}

/// Asking for an agent, whose number has to be positive.
pub open spec fn reads_agent(id: i64, purpose: AgentPurpose, dry_run: bool, r: Turn) -> bool {
    if id <= 0 {
        fails(r, ErrorView::Invalid("agent id "@ + signed(id as int) + " must be positive"@))
    } else {
        asks(
            r,
            Ask::Agents(AgentQuery::One { id }),
            Task::Agent { id, agent_purpose: purpose, dry_run },
        )
    }
}

/// What follows once a command was read.
pub open spec fn process_follows(
    id: i64,
    process: ProcessRun,
    purpose: ProcessPurpose,
    dry_run: bool,
    now: Timestamp,
    r: Turn,
) -> bool {
    match purpose {
        ProcessPurpose::Show => prints(r, process_line(process, now)),
        ProcessPurpose::Focus { args } => if dry_run {
            match argument_fault(process.orchestrator.is_tmux(), texts(args@)) {
                Some(error) => fails(r, error),
                None => process_previews(id, process, purpose, now, r),
            }
        } else {
            exists|after: ProcessRun, step: FocusStep| #[trigger]
                process.focused(FocusEvent::Asked(args), after, step) && process_focuses(
                    after,
                    step,
                    now,
                    r,
                )
        },
        ProcessPurpose::Finish { status } => if dry_run {
            process_previews(id, process, purpose, now, r)
        } else {
            asks(
                r,
                Ask::Write(Job::FinishProcess { id: process.id, exit_status: status }),
                Task::ProcessWrite { process },
            )
        },
        ProcessPurpose::Acknowledge => if dry_run {
            process_previews(id, process, purpose, now, r)
        } else {
            asks(
                r,
                Ask::Write(Job::AcknowledgeProcess { id: process.id }),
                Task::ProcessWrite { process },
            )
        },
    }
}

/// Looking at the state of a command in a dry run; it is read again where it may
/// have changed.
pub open spec fn process_previews(
    id: i64,
    process: ProcessRun,
    purpose: ProcessPurpose,
    now: Timestamp,
    r: Turn,
) -> bool {
    if process.pending() {
        asks(
            r,
            Ask::ProcessState(process.id),
            Task::ProcessPreview { id, process, purpose },
        )
    } else {
        process_previewed(id, process, purpose, now, r)
    }
}

/// What a dry run says of a command whose state is known.
pub open spec fn process_previewed(
    id: i64,
    process: ProcessRun,
    purpose: ProcessPurpose,
    now: Timestamp,
    r: Turn,
) -> bool {
    match (purpose, process.state) {
        (ProcessPurpose::Finish { .. }, ProcessState::Finished { .. }) => fails(
            r,
            ErrorView::AlreadyFinished(id),
        ),
        (ProcessPurpose::Finish { .. }, ProcessState::Acknowledged { .. }) => fails(
            r,
            ErrorView::AlreadyAcknowledged(id),
        ),
        (ProcessPurpose::Acknowledge, ProcessState::Running) => fails(
            r,
            ErrorView::StillRunning(id),
        ),
        (ProcessPurpose::Focus { .. }, _) => prints(
            r,
            targeted(destination(process.orchestrator), process_line(process, now)),
        ),
        _ => prints(r, process_line(process, now)),
    }
}

/// What a step of the focus of a command leads to.
pub open spec fn process_focuses(
    process: ProcessRun,
    step: FocusStep,
    now: Timestamp,
    r: Turn,
) -> bool {
    match step {
        FocusStep::Tmux { stage, args } => asks(
            r,
            Ask::Tmux(args),
            Task::ProcessFocus { process, wait: FocusWait::Tmux { stage } },
        ),
        FocusStep::Read { target } => asks(
            r,
            Ask::ProcessState(process.id),
            Task::ProcessFocus { process, wait: FocusWait::Read { target } },
        ),
        FocusStep::Write { target, job } => asks(
            r,
            Ask::Write(job),
            Task::ProcessFocus { process, wait: FocusWait::Written { target } },
        ),
        FocusStep::Arrived(target) => prints(r, targeted(target@, process_line(process, now))),
        FocusStep::Failed(error) => r == Turn::Fail(error),
    }
}

/// What follows once an agent was read.
pub open spec fn agent_follows(
    id: i64,
    agent: AgentRun,
    purpose: AgentPurpose,
    dry_run: bool,
    now: Timestamp,
    r: Turn,
) -> bool {
    match purpose {
        AgentPurpose::Show => prints(r, agent_line(agent, now)),
        AgentPurpose::Focus { args } => if dry_run {
            match argument_fault(agent.orchestrator.is_tmux(), texts(args@)) {
                Some(error) => fails(r, error),
                None => agent_previews(id, agent, purpose, now, r),
            }
        } else {
            exists|after: AgentRun, step: FocusStep| #[trigger]
                agent.focused(FocusEvent::Asked(args), after, step) && agent_focuses(
                    after,
                    step,
                    now,
                    r,
                )
        },
        AgentPurpose::Report { status } => if dry_run {
            agent_previews(id, agent, purpose, now, r)
        } else {
            asks(
                r,
                Ask::Write(Job::SetStatusAgent { id: agent.id, status }),
                Task::AgentWrite { agent },
            )
        },
        AgentPurpose::Acknowledge => if dry_run {
            agent_previews(id, agent, purpose, now, r)
        } else {
            asks(
                r,
                Ask::Write(Job::AcknowledgeAgent { id: agent.id }),
                Task::AgentWrite { agent },
            )
        },
    }
}

/// Looking at the status of an agent in a dry run; it is read again where it may
/// have changed.
pub open spec fn agent_previews(
    id: i64,
    agent: AgentRun,
    purpose: AgentPurpose,
    now: Timestamp,
    r: Turn,
) -> bool {
    if agent.pending() {
        asks(
            r,
            Ask::AgentState(agent.id),
            Task::AgentPreview { id, agent, agent_purpose: purpose },
        )
    } else {
        agent_previewed(id, agent, purpose, now, r)
    }
}

/// What a dry run says of an agent whose status is known.
pub open spec fn agent_previewed(
    id: i64,
    agent: AgentRun,
    purpose: AgentPurpose,
    now: Timestamp,
    r: Turn,
) -> bool {
    match purpose {
        AgentPurpose::Report { status } => if permitted(agent.status, status) {
            prints(r, agent_line(agent, now))
        } else {
            fails(
                r,
                ErrorView::InvalidAgentTransition { id, from: agent.status, to: status },
            )
        },
        AgentPurpose::Acknowledge => if agent.status == AgentStatus::Done {
            prints(r, agent_line(agent, now))
        } else {
            fails(r, ErrorView::AgentNotDone(id))
        },
        AgentPurpose::Focus { .. } => prints(
            r,
            targeted(destination(agent.orchestrator), agent_line(agent, now)),
        ),
        AgentPurpose::Show => prints(r, agent_line(agent, now)),
    }
}

/// What a step of the focus of an agent leads to.
pub open spec fn agent_focuses(agent: AgentRun, step: FocusStep, now: Timestamp, r: Turn) -> bool {
    match step {
        FocusStep::Tmux { stage, args } => asks(
            r,
            Ask::Tmux(args),
            Task::AgentFocus { agent, wait: FocusWait::Tmux { stage } },
        ),
        FocusStep::Read { target } => asks(
            r,
            Ask::AgentState(agent.id),
            Task::AgentFocus { agent, wait: FocusWait::Read { target } },
        ),
        FocusStep::Write { target, job } => asks(
            r,
            Ask::Write(job),
            Task::AgentFocus { agent, wait: FocusWait::Written { target } },
        ),
        FocusStep::Arrived(target) => prints(r, targeted(target@, agent_line(agent, now))),
        FocusStep::Failed(error) => r == Turn::Fail(error),
    }
}

fn single(line: String) -> (r: Turn)
    ensures
        prints(r, line@),
{
    let mut lines: Vec<String> = Vec::new();
    lines.push(line);
    Turn::Print(lines)
}

fn with_target(target: &str, row: String) -> (r: String)
    ensures
        r@ == targeted(target@, row@),
{
    let mut line: String = escape_field(target);
    line.append("\t");
    line.append(row.as_str());
    line
}

fn destination_of(host: &Orchestrator) -> (r: String)
    ensures
        r@ == destination(*host),
{
    let mut text: String = host.describe();
    text.append(" (");
    text.append(host.cwd().as_str());
    text.append(")");
    text
}

fn process_row(process: &ProcessRun, now: Timestamp) -> (r: String)
    ensures
        r@ == process_line(*process, now),
{
    format_row(&process.snapshot(), now)
}

fn agent_row(agent: &AgentRun, now: Timestamp) -> (r: String)
    ensures
        r@ == agent_line(*agent, now),
{
    format_agent_row(&agent.snapshot(), now)
}

fn read_process(storage: Storage, id: i64, purpose: ProcessPurpose, dry_run: bool) -> (r: Turn)
    ensures
        reads_process(id, purpose, dry_run, r),
{
    match positive(id) {
        Err(error) => Turn::Fail(error),
        Ok(id) => match storage.get_process(id) {
            Err(error) => Turn::Fail(error),
            Ok(query) => Turn::Ask {
                ask: Ask::Processes(query),
                rest: Task::Process { id, purpose, dry_run },
            },
        },
    }
}

fn read_agent(storage: Storage, id: i64, purpose: AgentPurpose, dry_run: bool) -> (r: Turn)
    ensures
        reads_agent(id, purpose, dry_run, r),
{
    match storage.get_agent(id) {
        Err(error) => Turn::Fail(error),
        Ok(query) => Turn::Ask {
            ask: Ask::Agents(query),
            rest: Task::Agent { id, agent_purpose: purpose, dry_run },
        },
    }
}

/// Begins a command that is to be carried out.
pub fn dispatch(command: Command, storage: Storage, dry_run: bool, env: &Environment) -> (r: Turn)
    requires
        dispatchable(command, dry_run),
    ensures
        match command {
            Command::Process(command) => process_begins(command, storage, dry_run, *env, r),
            Command::Agent(command) => agent_begins(command, storage, dry_run, *env, r),
            Command::Panel => false,
        },
{
    if dry_run {
        return preview(command, storage, env);
    }
    match command {
        Command::Process(command) => match command {
            ProcessCommand::Start { command } => match storage.start_process(
                command.as_str(),
                env,
            ) {
                Err(error) => Turn::Fail(error),
                Ok(job) => Turn::Ask { ask: Ask::Write(job), rest: Task::Starting },
            },
            ProcessCommand::Finish { id, exit_code } => {
                match positive(id) {
                    Err(error) => return Turn::Fail(error),
                    Ok(_) => {},
                }
                match exit_status(exit_code) {
                    Err(error) => Turn::Fail(error),
                    Ok(status) => read_process(
                        storage,
                        id,
                        ProcessPurpose::Finish { status },
                        false,
                    ),
                }
            },
            ProcessCommand::Get { id } => read_process(storage, id, ProcessPurpose::Show, false),
            ProcessCommand::List { active } => list_processes(storage, active),
            ProcessCommand::Acknowledge { id } => read_process(
                storage,
                id,
                ProcessPurpose::Acknowledge,
                false,
            ),
            ProcessCommand::Focus { id, navigation_args } => read_process(
                storage,
                id,
                ProcessPurpose::Focus { args: navigation_args },
                false,
            ),
        },
        Command::Agent(command) => begin_agent(command, storage, false, env),
        Command::Panel => Turn::Print(Vec::new()),
    }
}

/// Begins a command in a dry run: what would happen is found out by reading.
pub fn preview(command: Command, storage: Storage, env: &Environment) -> (r: Turn)
    requires
        dispatchable(command, true),
    ensures
        match command {
            Command::Process(command) => process_begins(command, storage, true, *env, r),
            Command::Agent(command) => agent_begins(command, storage, true, *env, r),
            Command::Panel => false,
        },
{
    match command {
        Command::Process(command) => match command {
            ProcessCommand::Start { .. } => Turn::Print(Vec::new()),
            ProcessCommand::Finish { id, exit_code } => match exit_status(exit_code) {
                Err(error) => Turn::Fail(error),
                Ok(status) => read_process(storage, id, ProcessPurpose::Finish { status }, true),
            },
            ProcessCommand::Get { id } => read_process(storage, id, ProcessPurpose::Show, true),
            ProcessCommand::List { active } => list_processes(storage, active),
            ProcessCommand::Acknowledge { id } => read_process(
                storage,
                id,
                ProcessPurpose::Acknowledge,
                true,
            ),
            ProcessCommand::Focus { id, navigation_args } => read_process(
                storage,
                id,
                ProcessPurpose::Focus { args: navigation_args },
                true,
            ),
        },
        Command::Agent(command) => begin_agent(command, storage, true, env),
        Command::Panel => Turn::Print(Vec::new()),
    }
}

fn list_processes(storage: Storage, active: bool) -> (r: Turn)
    ensures
        asks(
            r,
            Ask::Processes(
                if active {
                    ProcessQuery::Running
                } else {
                    ProcessQuery::All
                },
            ),
            Task::ListingProcesses,
        ),
{
    let query: ProcessQuery = if active {
        storage.running_process()
    } else {
        storage.all_process()
    };
    Turn::Ask { ask: Ask::Processes(query), rest: Task::ListingProcesses }
}

fn begin_agent(command: AgentCommand, storage: Storage, dry_run: bool, env: &Environment) -> (r:
    Turn)
    ensures
        agent_begins(command, storage, dry_run, *env, r),
{
    match command {
        AgentCommand::Register { kind } => match storage.register_agent(kind.as_str(), env) {
            Err(error) => Turn::Fail(error),
            Ok(job) => Turn::Ask { ask: Ask::Write(job), rest: Task::Registering },
        },
        AgentCommand::Status { id, status } => {
            if id <= 0 {
                return read_agent(storage, id, AgentPurpose::Show, dry_run);
            }
            match AgentStatus::parse(status.as_str()) {
                Err(error) => Turn::Fail(error),
                Ok(status) => read_agent(storage, id, AgentPurpose::Report { status }, dry_run),
            }
        },
        AgentCommand::Get { id } => read_agent(storage, id, AgentPurpose::Show, dry_run),
        AgentCommand::List { active } => {
            let query: AgentQuery = if active {
                storage.active_agent()
            } else {
                storage.all_agent()
            };
            Turn::Ask { ask: Ask::Agents(query), rest: Task::ListingAgents }
        },
        AgentCommand::Acknowledge { id } => read_agent(
            storage,
            id,
            AgentPurpose::Acknowledge,
            dry_run,
        ),
        AgentCommand::Focus { id, navigation_args } => read_agent(
            storage,
            id,
            AgentPurpose::Focus { args: navigation_args },
            dry_run,
        ),
    }
}

/// What an answer leads to.
pub open spec fn turns(
    task: Task,
    storage: Storage,
    reply: Reply,
    now: Timestamp,
    r: Turn,
) -> bool {
    match (task, reply) {
        (Task::Starting, Reply::Written(written)) => match written {
            Err(error) => r == Turn::Fail(error),
            Ok(outcome) => prints(r, signed(outcome->Started_0.id as int)),
        },
        (Task::Registering, Reply::Written(written)) => match written {
            Err(error) => r == Turn::Fail(error),
            Ok(outcome) => prints(r, signed(outcome->Registered_0.id as int)),
        },
        (Task::ListingProcesses, Reply::Processes(found)) => match found {
            Err(error) => r == Turn::Fail(error),
            Ok(list) => r matches Turn::Print(lines) && texts(lines@) == list@.map_values(
                |process: ProcessRun| process_line(process, now),
            ),
        },
        (Task::ListingAgents, Reply::Agents(found)) => match found {
            Err(error) => r == Turn::Fail(error),
            Ok(list) => r matches Turn::Print(lines) && texts(lines@) == list@.map_values(
                |agent: AgentRun| agent_line(agent, now),
            ),
        },
        (Task::Process { id, purpose, dry_run }, Reply::Processes(found)) => match first_of(
            listed(found),
            ErrorView::NotFound(id),
        ) {
            Err(error) => fails(r, error),
            Ok(process) => process_follows(id, process, purpose, dry_run, now, r),
        },
        (Task::ProcessPreview { id, process, purpose }, Reply::ProcessState(state)) => exists|
            after: ProcessRun,
            done: Result<(), Error>,
        | #[trigger]
            synced(process, state, after, done) && match done {
                Err(error) => r == Turn::Fail(error),
                Ok(_) => process_previewed(id, after, purpose, now, r),
            },
        (Task::ProcessWrite { process }, Reply::Written(written)) => exists|
            after: ProcessRun,
            done: Result<(), Error>,
        | #[trigger]
            taken(process, state_written(written), after, done) && match done {
                Err(error) => r == Turn::Fail(error),
                Ok(_) => prints(r, process_line(after, now)),
            },
        (Task::ProcessFocus { process, wait }, _) => exists|
            after: ProcessRun,
            step: FocusStep,
        | #[trigger]
            process.focused(process_event(wait, reply), after, step) && process_focuses(
                after,
                step,
                now,
                r,
            ),
        (Task::Agent { id, agent_purpose, dry_run }, Reply::Agents(found)) => match first_of(
            listed(found),
            ErrorView::AgentNotFound(id),
        ) {
            Err(error) => fails(r, error),
            Ok(agent) => agent_follows(id, agent, agent_purpose, dry_run, now, r),
        },
        (Task::AgentPreview { id, agent, agent_purpose }, Reply::AgentState(state)) => exists|
            after: AgentRun,
            done: Result<(), Error>,
        | #[trigger]
            agent_synced(agent, state, after, done) && match done {
                Err(error) => r == Turn::Fail(error),
                Ok(_) => agent_previewed(id, after, agent_purpose, now, r),
            },
        (Task::AgentWrite { agent }, Reply::Written(written)) => exists|
            after: AgentRun,
            done: Result<(), Error>,
        | #[trigger]
            agent_taken(agent, status_written(written), after, done) && match done {
                Err(error) => r == Turn::Fail(error),
                Ok(_) => prints(r, agent_line(after, now)),
            },
        (Task::AgentFocus { agent, wait }, _) => exists|
            after: AgentRun,
            step: FocusStep,
        | #[trigger]
            agent.focused(agent_event(wait, reply), after, step) && agent_focuses(
                after,
                step,
                now,
                r,
            ),
        _ => true,
    }
}

/// What an answer means to the focus of a command.
pub open spec fn process_event(wait: FocusWait, reply: Reply) -> FocusEvent<ProcessState> {
    match wait {
        FocusWait::Tmux { stage } => FocusEvent::Tmux { stage, output: reply->Tmux_0 },
        FocusWait::Read { target } => FocusEvent::Read { target, answer: reply->ProcessState_0 },
        FocusWait::Written { target } => FocusEvent::Written {
            target,
            answer: state_written(reply->Written_0),
        },
    }
}

/// What an answer means to the focus of an agent.
pub open spec fn agent_event(wait: FocusWait, reply: Reply) -> FocusEvent<(AgentStatus, bool)> {
    match wait {
        FocusWait::Tmux { stage } => FocusEvent::Tmux { stage, output: reply->Tmux_0 },
        FocusWait::Read { target } => FocusEvent::Read { target, answer: reply->AgentState_0 },
        FocusWait::Written { target } => FocusEvent::Written {
            target,
            answer: status_written(reply->Written_0),
        },
    }
}

/// Goes on with a command, on an answer that came at the given time.
pub fn resume(task: Task, storage: Storage, reply: Reply, now: Timestamp) -> (r: Turn)
    requires
        task.awaits(reply),
    ensures
        turns(task, storage, reply, now, r),
{
    match task {
        Task::Starting => match reply {
            Reply::Written(Ok(Outcome::Started(process))) => single(decimal(process.id())),
            Reply::Written(Err(error)) => Turn::Fail(error),
            _ => Turn::Print(Vec::new()),
        },
        Task::Registering => match reply {
            Reply::Written(Ok(Outcome::Registered(agent))) => single(decimal(agent.id())),
            Reply::Written(Err(error)) => Turn::Fail(error),
            _ => Turn::Print(Vec::new()),
        },
        Task::ListingProcesses => match reply {
            Reply::Processes(Ok(list)) => print_processes(&list, now),
            Reply::Processes(Err(error)) => Turn::Fail(error),
            _ => Turn::Print(Vec::new()),
        },
        Task::ListingAgents => match reply {
            Reply::Agents(Ok(list)) => print_agents(&list, now),
            Reply::Agents(Err(error)) => Turn::Fail(error),
            _ => Turn::Print(Vec::new()),
        },
        Task::Process { id, purpose, dry_run } => match reply {
            Reply::Processes(found) => match storage.found_process(id, found) {
                Err(error) => Turn::Fail(error),
                Ok(process) => with_process(id, process, purpose, dry_run, now),
            },
            _ => Turn::Print(Vec::new()),
        },
        Task::ProcessPreview { id, process, purpose } => match reply {
            Reply::ProcessState(state) => {
                let mut current: ProcessRun = process;
                let done: Result<(), Error> = current.sync(state);
                let ghost after = current;
                let ghost known = done;
                assert(synced(process, state, after, known));
                match done {
                    Err(error) => Turn::Fail(error),
                    Ok(()) => previewed_process(id, &current, &purpose, now),
                }
            },
            _ => Turn::Print(Vec::new()),
        },
        Task::ProcessWrite { process } => match reply {
            Reply::Written(written) => {
                let mut current: ProcessRun = process;
                let state: Result<ProcessState, Error> = written_state(written);
                let done: Result<(), Error> = current.acknowledge(state);
                let ghost after = current;
                let ghost known = done;
                assert(taken(process, state_written(written), after, known));
                match done {
                    Err(error) => Turn::Fail(error),
                    Ok(()) => single(process_row(&current, now)),
                }
            },
            _ => Turn::Print(Vec::new()),
        },
        Task::ProcessFocus { process, wait } => {
            let event: FocusEvent<ProcessState> = match (wait, reply) {
                (FocusWait::Tmux { stage }, Reply::Tmux(output)) => FocusEvent::Tmux {
                    stage,
                    output,
                },
                (FocusWait::Read { target }, Reply::ProcessState(answer)) => FocusEvent::Read {
                    target,
                    answer,
                },
                (FocusWait::Written { target }, Reply::Written(written)) => FocusEvent::Written {
                    target,
                    answer: written_state(written),
                },
                _ => FocusEvent::Asked(Vec::new()),
            };
            assert(event == process_event(wait, reply));
            focus_process(process, event, now)
        },
        Task::Agent { id, agent_purpose, dry_run } => match reply {
            Reply::Agents(found) => match storage.found_agent(id, found) {
                Err(error) => Turn::Fail(error),
                Ok(agent) => with_agent(id, agent, agent_purpose, dry_run, now),
            },
            _ => Turn::Print(Vec::new()),
        },
        Task::AgentPreview { id, agent, agent_purpose } => match reply {
            Reply::AgentState(state) => {
                let mut current: AgentRun = agent;
                let done: Result<(), Error> = current.sync(state);
                let ghost after = current;
                let ghost known = done;
                assert(agent_synced(agent, state, after, known));
                match done {
                    Err(error) => Turn::Fail(error),
                    Ok(()) => previewed_agent(id, &current, &agent_purpose, now),
                }
            },
            _ => Turn::Print(Vec::new()),
        },
        Task::AgentWrite { agent } => match reply {
            Reply::Written(written) => {
                let mut current: AgentRun = agent;
                let state: Result<(AgentStatus, bool), Error> = written_status(written);
                let done: Result<(), Error> = current.set_status(state);
                let ghost after = current;
                let ghost known = done;
                assert(agent_taken(agent, status_written(written), after, known));
                match done {
                    Err(error) => Turn::Fail(error),
                    Ok(()) => single(agent_row(&current, now)),
                }
            },
            _ => Turn::Print(Vec::new()),
        },
        Task::AgentFocus { agent, wait } => {
            let event: FocusEvent<(AgentStatus, bool)> = match (wait, reply) {
                (FocusWait::Tmux { stage }, Reply::Tmux(output)) => FocusEvent::Tmux {
                    stage,
                    output,
                },
                (FocusWait::Read { target }, Reply::AgentState(answer)) => FocusEvent::Read {
                    target,
                    answer,
                },
                (FocusWait::Written { target }, Reply::Written(written)) => FocusEvent::Written {
                    target,
                    answer: written_status(written),
                },
                _ => FocusEvent::Asked(Vec::new()),
            };
            assert(event == agent_event(wait, reply));
            focus_agent(agent, event, now)
        },
    }
}

fn written_state(written: Result<Outcome, Error>) -> (r: Result<ProcessState, Error>)
    requires
        written is Ok ==> written->Ok_0 is State,
    ensures
        r == state_written(written),
{
    match written {
        Err(error) => Err(error),
        Ok(Outcome::State(state)) => Ok(state),
        Ok(_) => Ok(ProcessState::Running),
    }
}

fn written_status(written: Result<Outcome, Error>) -> (r: Result<(AgentStatus, bool), Error>)
    requires
        written is Ok ==> written->Ok_0 is AgentState,
    ensures
        r == status_written(written),
{
    match written {
        Err(error) => Err(error),
        Ok(Outcome::AgentState { status, acknowledged }) => Ok((status, acknowledged)),
        Ok(_) => Ok((AgentStatus::Idle, false)),
    }
}

fn print_processes(list: &Vec<ProcessRun>, now: Timestamp) -> (r: Turn)
    ensures
        r matches Turn::Print(lines) && texts(lines@) == list@.map_values(
            |process: ProcessRun| process_line(process, now),
        ),
{
    let mut lines: Vec<String> = Vec::new();
    let mut i: usize = 0;
    while i < list.len()
        invariant
            i <= list.len(),
            lines@.len() == i,
            forall|j: int| 0 <= j < i ==> (#[trigger] lines@[j])@ == process_line(list@[j], now),
        decreases list.len() - i,
    {
        lines.push(process_row(&list[i], now));
        i = i + 1;
    }
    assert(texts(lines@) =~= list@.map_values(|process: ProcessRun| process_line(process, now)));
    Turn::Print(lines)
}

fn print_agents(list: &Vec<AgentRun>, now: Timestamp) -> (r: Turn)
    ensures
        r matches Turn::Print(lines) && texts(lines@) == list@.map_values(
            |agent: AgentRun| agent_line(agent, now),
        ),
{
    let mut lines: Vec<String> = Vec::new();
    let mut i: usize = 0;
    while i < list.len()
        invariant
            i <= list.len(),
            lines@.len() == i,
            forall|j: int| 0 <= j < i ==> (#[trigger] lines@[j])@ == agent_line(list@[j], now),
        decreases list.len() - i,
    {
        lines.push(agent_row(&list[i], now));
        i = i + 1;
    }
    assert(texts(lines@) =~= list@.map_values(|agent: AgentRun| agent_line(agent, now)));
    Turn::Print(lines)
}

fn with_process(
    id: i64,
    process: ProcessRun,
    purpose: ProcessPurpose,
    dry_run: bool,
    now: Timestamp,
) -> (r: Turn)
    ensures
        process_follows(id, process, purpose, dry_run, now, r),
{
    if dry_run {
        match &purpose {
            ProcessPurpose::Show => return single(process_row(&process, now)),
            ProcessPurpose::Focus { args } => {
                proof {
                    kinds_are_told_apart();
                }
                match validate_navigation_args(process.orchestrator.kind(), args.as_slice()) {
                    Err(error) => return Turn::Fail(error),
                    Ok(()) => {},
                }
            },
            _ => {},
        }
        if process.needs_sync() {
            return Turn::Ask {
                ask: Ask::ProcessState(process.id),
                rest: Task::ProcessPreview { id, process, purpose },
            };
        }
        return previewed_process(id, &process, &purpose, now);
    }
    match purpose {
        ProcessPurpose::Show => single(process_row(&process, now)),
        ProcessPurpose::Finish { status } => Turn::Ask {
            ask: Ask::Write(process.storage.finish_process(process.id, status)),
            rest: Task::ProcessWrite { process },
        },
        ProcessPurpose::Acknowledge => Turn::Ask {
            ask: Ask::Write(process.storage.acknowledge_process(process.id)),
            rest: Task::ProcessWrite { process },
        },
        ProcessPurpose::Focus { args } => focus_process(process, FocusEvent::Asked(args), now),
    }
}

fn previewed_process(id: i64, process: &ProcessRun, purpose: &ProcessPurpose, now: Timestamp) -> (r:
    Turn)
    ensures
        process_previewed(id, *process, *purpose, now, r),
{
    match (purpose, process.state) {
        (ProcessPurpose::Finish { .. }, ProcessState::Finished { .. }) => Turn::Fail(
            Error::AlreadyFinished(id),
        ),
        (ProcessPurpose::Finish { .. }, ProcessState::Acknowledged { .. }) => Turn::Fail(
            Error::AlreadyAcknowledged(id),
        ),
        (ProcessPurpose::Acknowledge, ProcessState::Running) => Turn::Fail(
            Error::StillRunning(id),
        ),
        (ProcessPurpose::Focus { .. }, _) => single(
            with_target(
                destination_of(&process.orchestrator).as_str(),
                process_row(process, now),
            ),
        ),
        _ => single(process_row(process, now)),
    }
}

fn focus_process(process: ProcessRun, event: FocusEvent<ProcessState>, now: Timestamp) -> (r: Turn)
    ensures
        exists|after: ProcessRun, step: FocusStep| #[trigger]
            process.focused(event, after, step) && process_focuses(after, step, now, r),
{
    let mut current: ProcessRun = process;
    let step: FocusStep = current.focus(event);
    let ghost after = current;
    let ghost taken_step = step;
    assert(process.focused(event, after, taken_step));
    match step {
        FocusStep::Tmux { stage, args } => Turn::Ask {
            ask: Ask::Tmux(args),
            rest: Task::ProcessFocus { process: current, wait: FocusWait::Tmux { stage } },
        },
        FocusStep::Read { target } => Turn::Ask {
            ask: Ask::ProcessState(current.id),
            rest: Task::ProcessFocus { process: current, wait: FocusWait::Read { target } },
        },
        FocusStep::Write { target, job } => Turn::Ask {
            ask: Ask::Write(job),
            rest: Task::ProcessFocus { process: current, wait: FocusWait::Written { target } },
        },
        FocusStep::Arrived(target) => single(
            with_target(target.as_str(), process_row(&current, now)),
        ),
        FocusStep::Failed(error) => Turn::Fail(error),
    }
}

fn with_agent(
    id: i64,
    agent: AgentRun,
    purpose: AgentPurpose,
    dry_run: bool,
    now: Timestamp,
) -> (r: Turn)
    ensures
        agent_follows(id, agent, purpose, dry_run, now, r),
{
    if dry_run {
        match &purpose {
            AgentPurpose::Show => return single(agent_row(&agent, now)),
            AgentPurpose::Focus { args } => {
                proof {
                    kinds_are_told_apart();
                }
                match validate_navigation_args(agent.orchestrator.kind(), args.as_slice()) {
                    Err(error) => return Turn::Fail(error),
                    Ok(()) => {},
                }
            },
            _ => {},
        }
        if agent.needs_sync() {
            return Turn::Ask {
                ask: Ask::AgentState(agent.id),
                rest: Task::AgentPreview { id, agent, agent_purpose: purpose },
            };
        }
        return previewed_agent(id, &agent, &purpose, now);
    }
    match purpose {
        AgentPurpose::Show => single(agent_row(&agent, now)),
        AgentPurpose::Report { status } => Turn::Ask {
            ask: Ask::Write(agent.storage.set_status_agent(agent.id, status)),
            rest: Task::AgentWrite { agent },
        },
        AgentPurpose::Acknowledge => Turn::Ask {
            ask: Ask::Write(agent.storage.acknowledge_agent(agent.id)),
            rest: Task::AgentWrite { agent },
        },
        AgentPurpose::Focus { args } => focus_agent(agent, FocusEvent::Asked(args), now),
    }
}

fn previewed_agent(id: i64, agent: &AgentRun, purpose: &AgentPurpose, now: Timestamp) -> (r: Turn)
    ensures
        agent_previewed(id, *agent, *purpose, now, r),
{
    match purpose {
        AgentPurpose::Report { status } => {
            if agent.status.permits(*status) {
                single(agent_row(agent, now))
            } else {
                Turn::Fail(
                    Error::InvalidAgentTransition { id, from: agent.status, to: *status },
                )
            }
        },
        AgentPurpose::Acknowledge => {
            if agent.status == AgentStatus::Done {
                single(agent_row(agent, now))
            } else {
                Turn::Fail(Error::AgentNotDone(id))
            }
        },
        AgentPurpose::Focus { .. } => single(
            with_target(destination_of(&agent.orchestrator).as_str(), agent_row(agent, now)),
        ),
        AgentPurpose::Show => single(agent_row(agent, now)),
    }
}

fn focus_agent(agent: AgentRun, event: FocusEvent<(AgentStatus, bool)>, now: Timestamp) -> (r: Turn)
    ensures
        exists|after: AgentRun, step: FocusStep| #[trigger]
            agent.focused(event, after, step) && agent_focuses(after, step, now, r),
{
    let mut current: AgentRun = agent;
    let step: FocusStep = current.focus(event);
    let ghost after = current;
    let ghost taken_step = step;
    assert(agent.focused(event, after, taken_step));
    match step {
        FocusStep::Tmux { stage, args } => Turn::Ask {
            ask: Ask::Tmux(args),
            rest: Task::AgentFocus { agent: current, wait: FocusWait::Tmux { stage } },
        },
        FocusStep::Read { target } => Turn::Ask {
            ask: Ask::AgentState(current.id),
            rest: Task::AgentFocus { agent: current, wait: FocusWait::Read { target } },
        },
        FocusStep::Write { target, job } => Turn::Ask {
            ask: Ask::Write(job),
            rest: Task::AgentFocus { agent: current, wait: FocusWait::Written { target } },
        },
        FocusStep::Arrived(target) => single(with_target(target.as_str(), agent_row(&current, now))),
        FocusStep::Failed(error) => Turn::Fail(error),
    }
}

/// Whether a turn neither writes nor navigates.
pub open spec fn only_reads(r: Turn) -> bool {
    r matches Turn::Ask { ask, .. } ==> !(ask is Write) && !(ask is Tmux)
}

/// Whether a task is one of a dry run, or reads a list.
pub open spec fn of_dry_run(task: Task) -> bool {
    match task {
        Task::ListingProcesses => true,
        Task::ListingAgents => true,
        Task::Process { dry_run, .. } => dry_run,
        Task::ProcessPreview { .. } => true,
        Task::Agent { dry_run, .. } => dry_run,
        Task::AgentPreview { .. } => true,
        _ => false,
    }
}

/// A dry run begins without writing or navigating, and goes on as a dry run.
pub proof fn dry_run_begins_by_reading(
    command: Command,
    storage: Storage,
    env: Environment,
    r: Turn,
)
    requires
        dispatchable(command, true),
        match command {
            Command::Process(command) => process_begins(command, storage, true, env, r),
            Command::Agent(command) => agent_begins(command, storage, true, env, r),
            Command::Panel => false,
        },
    ensures
        only_reads(r),
        r matches Turn::Ask { rest, .. } ==> of_dry_run(rest),
{
}

/// A dry run goes on without writing or navigating, and stays a dry run.
pub proof fn dry_run_goes_on_reading(
    task: Task,
    storage: Storage,
    reply: Reply,
    now: Timestamp,
    r: Turn,
)
    requires
        of_dry_run(task),
        task.awaits(reply),
        turns(task, storage, reply, now, r),
    ensures
        only_reads(r),
        r matches Turn::Ask { rest, .. } ==> of_dry_run(rest),
{
}

/// Whether an answer is one to what was asked.
pub open spec fn answers(ask: Ask, reply: Reply) -> bool {
    match ask {
        Ask::Processes(_) => reply is Processes,
        Ask::Agents(_) => reply is Agents,
        Ask::ProcessState(_) => reply is ProcessState,
        Ask::AgentState(_) => reply is AgentState,
        Ask::Write(job) => reply matches Reply::Written(written) && (written is Err || fits(
            job,
            written->Ok_0,
        )),
        Ask::Tmux(_) => reply is Tmux,
    }
}

/// Whatever is answered to the first question of a command, the command goes on
/// with it.
pub proof fn first_answers_are_awaited(
    command: Command,
    storage: Storage,
    dry_run: bool,
    env: Environment,
    r: Turn,
    reply: Reply,
)
    requires
        dispatchable(command, dry_run),
        match command {
            Command::Process(command) => process_begins(command, storage, dry_run, env, r),
            Command::Agent(command) => agent_begins(command, storage, dry_run, env, r),
            Command::Panel => false,
        },
    ensures
        r matches Turn::Ask { ask, rest } ==> answers(ask, reply) ==> rest.awaits(reply),
{
}

/// Whatever is answered to a later question of a command, the command goes on
/// with it.
pub proof fn later_answers_are_awaited(
    task: Task,
    storage: Storage,
    before: Reply,
    now: Timestamp,
    r: Turn,
    reply: Reply,
)
    requires
        task.awaits(before),
        turns(task, storage, before, now, r),
    ensures
        r matches Turn::Ask { ask, rest } ==> answers(ask, reply) ==> rest.awaits(reply),
{
}

} // verus!
