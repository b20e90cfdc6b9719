//! What needs no database: texts, times, rows, keys and the commands of the
//! program.

use worklight::agent::{AgentRun, AgentStatus};
use worklight::cli::{
    default_database, dispatch, launch, positive, resume, AgentCommand, Ask, Command, Launch,
    ProcessCommand, Reply, Turn,
};
use worklight::command_line::should_track;
use worklight::error::{map_error, Error, Failure, FailureCode, NavigationError};
use worklight::orchestrator::{
    detect, tmux_client, tmux_output, Environment, NavigationStage, NavigationStep, Orchestrator,
    TmuxRun,
};
use worklight::panel::{PanelSnapshot, TrackedId};
use worklight::process::{ProcessRun, ProcessState};
use worklight::query::{process_states_sql, AgentQuery, ProcessQuery};
use worklight::refresh::validate_navigation_args;
use worklight::report::{escape_field, format_agent_row, format_row};
use worklight::rows::{decode_process, HostRow, ProcessRow, StateRow};
use worklight::schema::{check_schema, initialize_schema, migrate_or_check_schema, SchemaChange};
use worklight::screen::{
    centered_popup, consume_events, draw, rollback_enter, run_outcome, send_request,
    terminal_error, viewport_rows, Area, KeyPress, Panel, Reaction,
};
use worklight::storage::{Job, Storage};
use worklight::time::{format_elapsed, from_millis, to_millis, Span, Timestamp};
use worklight::transaction::{Outcome, Statement, Value};
use worklight::worker::{PanelEvent, PanelRequest};

const STATUSES: [AgentStatus; 5] = [
    AgentStatus::Idle,
    AgentStatus::Working,
    AgentStatus::Waiting,
    AgentStatus::Done,
    AgentStatus::Killed,
];

fn at(millis: i128) -> Timestamp {
    Timestamp { nanos: millis * 1_000_000 }
}

fn storage() -> Storage {
    Storage { handle: 1, read_only: false }
}

fn shell(cwd: &str) -> Orchestrator {
    Orchestrator::restore_shell(storage(), 1, cwd.to_string()).unwrap()
}

fn pane(name: &str) -> Orchestrator {
    Orchestrator::restore_tmux(storage(), 1, "/work".to_string(), name.to_string()).unwrap()
}

fn process(state: ProcessState, host: Orchestrator) -> ProcessRun {
    ProcessRun::hydrate(storage(), 4, "cargo\ttest".to_string(), at(1_000), state, host)
}

fn agent(status: AgentStatus, host: Orchestrator) -> AgentRun {
    AgentRun::hydrate(storage(), 4, "pi".to_string(), at(1_000), status, false, host)
}

fn environment(vars: &[(&str, &str)]) -> Environment {
    Environment {
        cwd: Ok("/work".to_string()),
        vars: vars.iter().map(|(key, value)| (key.to_string(), value.to_string())).collect(),
    }
}

#[test]
fn status_representations_are_stable_and_exact() {
    for (number, text, status) in [
        (1, "idle", AgentStatus::Idle),
        (2, "working", AgentStatus::Working),
        (3, "waiting", AgentStatus::Waiting),
        (4, "done", AgentStatus::Done),
        (5, "killed", AgentStatus::Killed),
    ] {
        assert_eq!(status.code(), number);
        assert_eq!(status.as_str(), text);
        assert_eq!(AgentStatus::parse(text).unwrap(), status);
        assert_eq!(AgentStatus::from_database(number).unwrap(), status);
    }
    for value in [i64::MIN, -1, 0, 6, i64::MAX] {
        assert!(matches!(
            AgentStatus::from_database(value),
            Err(Error::CorruptData(_))
        ));
    }
    for value in ["", "Idle", " working", "working ", "unknown"] {
        assert!(matches!(AgentStatus::parse(value), Err(Error::Invalid(_))));
    }
}

#[test]
fn unknown_statuses_are_quoted() {
    let error = AgentStatus::parse("a\"b\n").unwrap_err();
    assert_eq!(error.message(), "unknown agent status \"a\\\"b\\n\"");
}

#[test]
fn direct_transition_table_is_complete() {
    for from in STATUSES {
        for to in STATUSES {
            let expected = from == to
                || matches!(
                    (from, to),
                    (
                        AgentStatus::Idle,
                        AgentStatus::Working | AgentStatus::Killed
                    ) | (
                        AgentStatus::Working,
                        AgentStatus::Waiting | AgentStatus::Done | AgentStatus::Killed
                    ) | (
                        AgentStatus::Waiting,
                        AgentStatus::Working | AgentStatus::Killed
                    ) | (
                        AgentStatus::Done,
                        AgentStatus::Working | AgentStatus::Killed
                    )
                );
            assert_eq!(from.permits(to), expected, "{from:?} -> {to:?}");
        }
    }
    assert_eq!(AgentStatus::Waiting.priority(), 0);
    assert_eq!(AgentStatus::Idle.priority(), 1);
    assert_eq!(AgentStatus::Working.priority(), 2);
    assert_eq!(AgentStatus::Done.priority(), 3);
    assert_eq!(AgentStatus::Killed.priority(), 4);
}

#[test]
fn accepts_every_tracked_executable_directly_and_through_sudo() {
    let commands = [
        "cargo", "make", "gmake", "go", "npm", "npx", "pnpm", "pnpx", "yarn", "bun", "gradle",
        "gradlew", "mvn", "mvnw",
    ];
    for command in commands {
        assert!(should_track(command), "{command}");
        assert!(should_track(&format!("{command} test --flag")), "{command}");
        assert!(should_track(&format!("sudo {command}")), "sudo {command}");
    }
}

#[test]
fn accepts_only_rebase_of_git() {
    assert!(should_track("git rebase"));
    assert!(should_track("git  rebase -i main"));
    assert!(should_track("sudo git rebase"));
    for command in ["git", "git commit", "git rebased", "git 'rebase'", "git -C x rebase"] {
        assert!(!should_track(command), "{command:?}");
    }
}

#[test]
fn accepts_foreground_command_lines() {
    for command in [
        "  cargo test  ",
        "cargo test | tee output",
        "cargo test || echo failed",
        "cargo test && echo passed",
        "cargo test; echo done",
        "cargo>out",
        "cargo 2>&1",
        "cargo <&0",
        "cargo &>out",
        "cargo 'one & two'",
        "cargo \"one &! two\"",
        r"cargo one\&two",
        r"cargo \& later",
        r"cargo $'one\' & two'",
        "cargo $((flags & 1))",
        "cargo $(sleep 1 & wait)",
        "cargo `(sleep 1 & wait)`",
    ] {
        assert!(should_track(command), "{command:?}");
    }
}

#[test]
fn rejects_nonliteral_or_untracked_prefixes() {
    for command in [
        "",
        "   ",
        "Cargo test",
        "cargo-watch",
        "mvnn",
        "FOO=1 cargo test",
        "/usr/bin/make",
        "./gradlew",
        "../mvnw",
        "command cargo test",
        "env cargo test",
        "time cargo test",
        "'cargo' test",
        "\"cargo\" test",
        r"car\go test",
        "sudo",
        "sudo -E cargo test",
        "sudo -- cargo test",
        "sudo FOO=1 cargo test",
        "sudo /usr/bin/cargo test",
        "sudo 'cargo' test",
        "sudocargo test",
    ] {
        assert!(!should_track(command), "{command:?}");
    }
}

#[test]
fn rejects_top_level_asynchronous_operators_anywhere() {
    for command in [
        "& cargo test",
        "cargo&",
        "cargo &",
        "cargo&!",
        "cargo &|",
        "cargo | tee out &",
        "cargo && echo done &",
        "cargo; echo later &!",
        "cargo & echo later",
    ] {
        assert!(!should_track(command), "{command:?}");
    }
}

#[test]
fn rejects_malformed_quoting_and_escaping() {
    for command in [
        "cargo 'unterminated",
        "cargo \"unterminated",
        "cargo trailing\\",
        r"cargo $'unterminated\'",
        "cargo `unterminated",
        r"cargo \$'one\' & two'",
        "cargo (unterminated",
        "cargo unexpected)",
    ] {
        assert!(!should_track(command), "{command:?}");
    }
}

#[test]
fn detection_returns_creation_data_without_fabricated_identity() {
    let shell = environment(&[]);
    assert_eq!(detect(&shell).unwrap(), ("/work".to_string(), None));
    let tmux = environment(&[("TMUX", "/tmp/socket,123,0"), ("TMUX_PANE", "%7")]);
    assert_eq!(
        detect(&tmux).unwrap(),
        ("/work".to_string(), Some("%7".to_string()))
    );
}

#[test]
fn tmux_requires_both_active_environment_and_nonempty_pane() {
    let no_server = environment(&[("TMUX_PANE", "%1")]);
    let no_pane = environment(&[("TMUX", "anything")]);
    assert_eq!(detect(&no_server).unwrap().1, None);
    assert_eq!(detect(&no_pane).unwrap().1, None);
    let empty_pane = environment(&[("TMUX", "anything"), ("TMUX_PANE", "")]);
    assert_eq!(detect(&empty_pane).unwrap().1, None);
}

#[test]
fn navigation_lists_switches_and_selects() {
    let host = pane("%7");
    let NavigationStep::Run { stage, args } = host.navigate(&[]) else {
        panic!("the panes were not listed");
    };
    assert_eq!(args[0], "list-panes");
    assert_eq!(args[3], "#{pane_id}\t#{session_name}:#{window_index}.#{pane_index}");
    let listing = Ok("%70\tother:0.0\r\n%7\tmain:1.2\r\n".to_string());
    let NavigationStep::Run { stage, args } = host.resume(stage, listing) else {
        panic!("the client was not switched");
    };
    assert_eq!(args, vec!["switch-client", "-t", "main:1.2"]);
    let NavigationStep::Run { stage, args } = host.resume(stage, Ok(String::new())) else {
        panic!("the pane was not selected");
    };
    assert_eq!(args, vec!["select-pane", "-t", "%7"]);
    assert!(matches!(
        host.resume(stage, Ok(String::new())),
        NavigationStep::Arrived(target) if target == "main:1.2"
    ));
}

#[test]
fn navigation_through_a_client_selects_nothing() {
    let host = pane("%7");
    let args = ["--client=tty".to_string()];
    let NavigationStep::Run { stage, .. } = host.navigate(&args) else {
        panic!("the panes were not listed");
    };
    assert!(matches!(&stage, NavigationStage::Listing { client: Some(name) } if name == "tty"));
    let step = host.resume(stage, Ok("%7\tmain:1.2".to_string()));
    let NavigationStep::Run { stage, args } = step else {
        panic!("the client was not switched");
    };
    assert_eq!(args, vec!["switch-client", "-c", "tty", "-t", "main:1.2"]);
    assert!(matches!(
        host.resume(stage, Ok(String::new())),
        NavigationStep::Arrived(_)
    ));
    let NavigationStep::Run { stage, .. } = host.navigate(&[]) else {
        panic!("the panes were not listed");
    };
    assert!(matches!(
        host.resume(stage, Err("no server".to_string())),
        NavigationStep::Failed(NavigationError::Failed(text)) if text == "no server"
    ));
}

#[test]
fn client_arguments_are_checked() {
    let args = |list: &[&str]| list.iter().map(|text| text.to_string()).collect::<Vec<_>>();
    assert_eq!(tmux_client(&args(&[])).unwrap(), None);
    assert_eq!(tmux_client(&args(&["--client", "a"])).unwrap(), Some("a".to_string()));
    assert_eq!(tmux_client(&args(&["--client=a"])).unwrap(), Some("a".to_string()));
    assert_eq!(
        tmux_client(&args(&["--client="])).unwrap_err().message(),
        "tmux navigation option --client requires a value"
    );
    assert_eq!(
        tmux_client(&args(&["--client", ""])).unwrap_err().message(),
        "unsupported tmux navigation arguments: --client "
    );
    assert!(validate_navigation_args("shell", &args(&["anything"])).is_ok());
    assert_eq!(
        validate_navigation_args("tmux", &args(&["--client"])).unwrap_err().message(),
        "unsupported tmux navigation arguments: --client"
    );
}

#[test]
fn tmux_failures_are_trimmed() {
    assert_eq!(
        tmux_output(Err("missing".to_string())),
        Err("could not run tmux: missing".to_string())
    );
    let run = |success: bool| TmuxRun {
        success,
        stdout: " out \n".to_string(),
        stderr: " \t no server \u{a0}\n".to_string(),
    };
    assert_eq!(tmux_output(Ok(run(true))), Ok(" out \n".to_string()));
    assert_eq!(tmux_output(Ok(run(false))), Err("no server".to_string()));
}

#[test]
fn times_are_stored_in_whole_milliseconds() {
    assert_eq!(to_millis(Timestamp { nanos: 1_999_999 }), 1);
    assert_eq!(to_millis(Timestamp { nanos: -1 }), 0);
    assert_eq!(to_millis(Timestamp { nanos: i128::MAX }), i64::MAX);
    assert_eq!(from_millis(-5).nanos, 0);
    assert_eq!(from_millis(1_234), at(1_234));
}

#[test]
fn elapsed_time_is_shown_by_its_largest_parts() {
    let text = |seconds: u128| format_elapsed(Span { nanos: seconds * 1_000_000_000 });
    assert_eq!(text(0), "0s");
    assert_eq!(text(59), "59s");
    assert_eq!(text(61), "1m01s");
    assert_eq!(text(3_600), "1h00m00s");
    assert_eq!(text(100 * 3_600 + 59 * 60 + 7), "100h59m07s");
}

#[test]
fn rows_are_escaped_and_keep_their_columns() {
    assert_eq!(escape_field("a\\b\tc\rd\ne"), "a\\\\b\\tc\\rd\\ne");
    let state = ProcessState::Acknowledged { finished_at: at(3_500), exit_status: 130 };
    let run = process(state, shell("/a\nb"));
    assert_eq!(
        format_row(&run.snapshot(), at(9_000)),
        "4\tfailed/130\t130\t2500\tyes\tshell\t/a\\nb\tcargo\\ttest"
    );
    let run = process(ProcessState::Running, pane("%1"));
    assert_eq!(
        format_row(&run.snapshot(), at(9_000)),
        "4\trunning\t-\t8000\tno\ttmux\t/work\tcargo\\ttest"
    );
    let run = agent(AgentStatus::Waiting, pane("%1"));
    assert_eq!(
        format_agent_row(&run.snapshot(), at(500)),
        "4\twaiting\tno\t0\ttmux\t/work\tpi"
    );
}

#[test]
fn the_default_database_follows_the_environment() {
    assert_eq!(default_database(&environment(&[("WORKLIGHT_DB", "/x.db")])), "/x.db");
    assert_eq!(
        default_database(&environment(&[("XDG_DATA_HOME", "/data/"), ("HOME", "/home/u")])),
        "/data/worklight/worklight.db"
    );
    assert_eq!(
        default_database(&environment(&[("HOME", "/home/u")])),
        "/home/u/.local/share/worklight/worklight.db"
    );
    assert_eq!(
        default_database(&environment(&[("WORKLIGHT_DB", "")])),
        "./.local/share/worklight/worklight.db"
    );
}

#[test]
fn numbers_have_to_be_positive() {
    assert_eq!(positive(3).unwrap(), 3);
    assert_eq!(
        positive(-3).unwrap_err().message(),
        "process id -3 must be positive"
    );
    assert_eq!(
        storage().get_agent(0).unwrap_err().message(),
        "agent id 0 must be positive"
    );
    assert_eq!(
        storage().range_process(2, 1, 1).unwrap_err().message(),
        "invalid process range"
    );
    assert_eq!(
        storage().range_process(0, 1, usize::MAX).unwrap_err().message(),
        "range limit is too large"
    );
}

#[test]
fn ineligible_starts_and_dry_runs_open_nothing() {
    let start = |command: &str| {
        Some(Command::Process(ProcessCommand::Start { command: command.to_string() }))
    };
    assert_eq!(launch(&start("ls"), false), Launch::Nothing);
    assert_eq!(launch(&start("make"), true), Launch::Nothing);
    assert_eq!(launch(&start("make"), false), Launch::Dispatch);
    let register = Some(Command::Agent(AgentCommand::Register { kind: "pi".to_string() }));
    assert_eq!(launch(&register, true), Launch::Nothing);
    assert_eq!(launch(&register, false), Launch::Dispatch);
    assert_eq!(launch(&None, true), Launch::Panel);
    assert_eq!(launch(&Some(Command::Panel), false), Launch::Panel);
}

#[test]
fn starting_a_command_writes_it_and_prints_its_number() {
    let env = environment(&[("TMUX", "x"), ("TMUX_PANE", "%9")]);
    let start = Command::Process(ProcessCommand::Start { command: "make all".to_string() });
    let Turn::Ask { ask: Ask::Write(job), rest } = dispatch(start, storage(), false, &env) else {
        panic!("nothing was written");
    };
    assert!(matches!(
        &job,
        Job::StartProcess { label, cwd, pane: Some(pane) }
            if label == "make all" && cwd == "/work" && pane == "%9"
    ));
    let run = process(ProcessState::Running, pane("%9"));
    let turn = resume(rest, storage(), Reply::Written(Ok(Outcome::Started(run))), at(0));
    assert!(matches!(turn, Turn::Print(lines) if lines == vec!["4"]));
}

#[test]
fn a_command_that_is_not_tracked_can_be_dispatched_all_the_same() {
    let env = environment(&[]);
    let start = || Command::Process(ProcessCommand::Start { command: "ls".to_string() });
    assert_eq!(launch(&Some(start()), false), Launch::Nothing);
    let Turn::Ask { ask: Ask::Write(job), .. } = dispatch(start(), storage(), false, &env) else {
        panic!("nothing was written");
    };
    assert!(matches!(&job, Job::StartProcess { label, pane: None, .. } if label == "ls"));
    let blank = Command::Process(ProcessCommand::Start { command: "  ".to_string() });
    assert!(matches!(dispatch(blank, storage(), false, &env), Turn::Fail(Error::Invalid(_))));
}

#[test]
fn finishing_checks_the_number_before_the_code_unless_in_a_dry_run() {
    let env = environment(&[]);
    let finish = |id: i64, exit_code: i32| {
        Command::Process(ProcessCommand::Finish { id, exit_code })
    };
    let text = |turn: Turn| match turn {
        Turn::Fail(error) => error.message(),
        _ => panic!("the command went on"),
    };
    assert_eq!(
        text(dispatch(finish(0, 256), storage(), false, &env)),
        "process id 0 must be positive"
    );
    assert_eq!(
        text(dispatch(finish(0, 256), storage(), true, &env)),
        "exit code 256 is outside 0..=255"
    );
    assert_eq!(
        text(dispatch(finish(1, -1), storage(), false, &env)),
        "exit code -1 is outside 0..=255"
    );
}

#[test]
fn a_dry_run_says_what_a_command_would_meet() {
    let env = environment(&[]);
    let ended = ProcessState::Finished { finished_at: at(2_000), exit_status: 0 };
    let finish = Command::Process(ProcessCommand::Finish { id: 4, exit_code: 0 });
    let Turn::Ask { ask, rest } = dispatch(finish, storage(), true, &env) else {
        panic!("nothing was read");
    };
    assert!(matches!(ask, Ask::Processes(ProcessQuery::One { id: 4 })));
    let found = Reply::Processes(Ok(vec![process(ProcessState::Running, shell("/w"))]));
    let Turn::Ask { ask: Ask::ProcessState(4), rest } = resume(rest, storage(), found, at(0)) else {
        panic!("the state was not read");
    };
    let turn = resume(rest, storage(), Reply::ProcessState(Ok(ended)), at(0));
    assert!(matches!(turn, Turn::Fail(Error::AlreadyFinished(4))));

    let status = Command::Agent(AgentCommand::Status { id: 4, status: "done".to_string() });
    let Turn::Ask { rest, .. } = dispatch(status, storage(), true, &env) else {
        panic!("nothing was read");
    };
    let found = Reply::Agents(Ok(vec![agent(AgentStatus::Idle, shell("/w"))]));
    let Turn::Ask { rest, .. } = resume(rest, storage(), found, at(0)) else {
        panic!("the status was not read");
    };
    let known = Reply::AgentState(Ok((AgentStatus::Idle, false)));
    assert!(matches!(
        resume(rest, storage(), known, at(0)),
        Turn::Fail(Error::InvalidAgentTransition { id: 4, .. })
    ));
}

#[test]
fn missing_items_are_reported() {
    let env = environment(&[]);
    let get = Command::Process(ProcessCommand::Get { id: 4 });
    let Turn::Ask { rest, .. } = dispatch(get, storage(), false, &env) else {
        panic!("nothing was read");
    };
    let turn = resume(rest, storage(), Reply::Processes(Ok(Vec::new())), at(0));
    assert!(matches!(turn, Turn::Fail(Error::NotFound(4))));
    let list = Command::Agent(AgentCommand::List { active: true });
    let Turn::Ask { ask, rest } = dispatch(list, storage(), false, &env) else {
        panic!("nothing was read");
    };
    assert!(matches!(ask, Ask::Agents(AgentQuery::Active)));
    let found = vec![agent(AgentStatus::Idle, shell("/w")), agent(AgentStatus::Done, shell("/w"))];
    let turn = resume(rest, storage(), Reply::Agents(Ok(found)), at(1_000));
    assert!(matches!(
        turn,
        Turn::Print(lines)
            if lines == vec!["4\tidle\tno\t0\tshell\t/w\tpi", "4\tdone\tno\t0\tshell\t/w\tpi"]
    ));
}

#[test]
fn focusing_a_finished_command_acknowledges_it_on_arrival() {
    let env = environment(&[]);
    let ended = ProcessState::Finished { finished_at: at(2_000), exit_status: 0 };
    let seen = ProcessState::Acknowledged { finished_at: at(2_000), exit_status: 0 };
    let args = vec!["--client=tty".to_string()];
    let focus = Command::Process(ProcessCommand::Focus { id: 4, navigation_args: args });
    let Turn::Ask { rest, .. } = dispatch(focus, storage(), false, &env) else {
        panic!("nothing was read");
    };
    let found = Reply::Processes(Ok(vec![process(ended, pane("%2"))]));
    let Turn::Ask { ask: Ask::Tmux(_), rest } = resume(rest, storage(), found, at(0)) else {
        panic!("the panes were not listed");
    };
    let listing = Reply::Tmux(Ok("%2\tmain:1.0\n".to_string()));
    let Turn::Ask { ask: Ask::Tmux(args), rest } = resume(rest, storage(), listing, at(0)) else {
        panic!("the client was not switched");
    };
    assert_eq!(args, vec!["switch-client", "-c", "tty", "-t", "main:1.0"]);
    let switched = Reply::Tmux(Ok(String::new()));
    let Turn::Ask { ask: Ask::ProcessState(4), rest } = resume(rest, storage(), switched, at(0))
    else {
        panic!("the state was not read");
    };
    let read = Reply::ProcessState(Ok(ended));
    let Turn::Ask { ask: Ask::Write(job), rest } = resume(rest, storage(), read, at(0)) else {
        panic!("nothing was acknowledged");
    };
    assert!(matches!(job, Job::AcknowledgeProcess { id: 4 }));
    let turn = resume(rest, storage(), Reply::Written(Ok(Outcome::State(seen))), at(0));
    assert!(matches!(
        turn,
        Turn::Print(lines)
            if lines == vec!["main:1.0\t4\tsucceeded\t0\t1000\tyes\ttmux\t/work\tcargo\\ttest"]
    ));
}

#[test]
fn failures_of_statements_are_classified() {
    let text = |code: FailureCode| {
        map_error(Failure { code, detail: "why".to_string() }).message()
    };
    assert_eq!(text(FailureCode::Busy), "storage unavailable: why");
    assert_eq!(text(FailureCode::Locked), "storage unavailable: why");
    assert_eq!(text(FailureCode::NotADatabase), "incompatible storage: why");
    assert_eq!(text(FailureCode::Corrupt), "incompatible storage: why");
    assert_eq!(text(FailureCode::ReadOnly), "storage is read-only");
    assert_eq!(text(FailureCode::Other), "database error: why");
}

#[test]
fn errors_have_their_wording() {
    for (error, text) in [
        (Error::NotFound(-7), "no process with id -7"),
        (Error::Environment("no directory".to_string()), "no directory"),
        (Error::AlreadyFinished(1), "process 1 is already finished"),
        (Error::AlreadyAcknowledged(1), "process 1 is already acknowledged"),
        (Error::StillRunning(1), "process 1 is still running"),
        (Error::WrongStorage(1), "process 1 belongs to different storage"),
        (Error::AgentNotFound(12), "no agent with id 12"),
        (
            Error::InvalidAgentTransition {
                id: 1,
                from: AgentStatus::Idle,
                to: AgentStatus::Done,
            },
            "agent 1 cannot transition from idle to done",
        ),
        (Error::AgentNotDone(1), "agent 1 is not done"),
        (Error::AgentWrongStorage(1), "agent 1 belongs to different storage"),
        (Error::CorruptData("x".to_string()), "corrupt data: x"),
        (Error::Navigation(NavigationError::Missing("gone".to_string())), "gone"),
    ] {
        assert_eq!(error.message(), text);
    }
}

#[test]
fn schemas_are_accepted_migrated_or_refused() {
    for version in [3, 4] {
        assert!(check_schema("db", version, Ok(9)).is_ok());
        assert!(matches!(
            migrate_or_check_schema("db", version, Ok(9)),
            Ok(SchemaChange::Keep)
        ));
        assert!(matches!(initialize_schema("db", version, Ok(9)), Ok(SchemaChange::Keep)));
    }
    assert!(matches!(
        migrate_or_check_schema("db", 2, Ok(9)),
        Ok(SchemaChange::Apply { version: 3, .. })
    ));
    assert!(matches!(
        initialize_schema("db", 0, Ok(0)),
        Ok(SchemaChange::Apply { version: 4, .. })
    ));
    assert!(matches!(migrate_or_check_schema("db", 0, Ok(0)), Ok(SchemaChange::Keep)));
    for (version, tables, text) in [
        (0, 1, "db contains tables but no Worklight schema version"),
        (2, 1, "db has schema version 2 and requires migration to version 3"),
        (9, 1, "db has schema version 9, but this build understands 4"),
    ] {
        let error = check_schema("db", version, Ok(tables)).unwrap_err();
        assert_eq!(error.message(), format!("incompatible storage: {text}"));
    }
}

#[test]
fn statements_carry_their_parameters() {
    let statement = Statement::SetStatus {
        id: 5,
        next: AgentStatus::Killed,
        current: AgentStatus::Done,
        acknowledged: true,
    };
    assert_eq!(
        statement.sql(),
        "UPDATE agents SET status=?2,acked=0 WHERE id=?1 AND status=?3 AND acked=?4"
    );
    assert!(matches!(
        &statement.params()[..],
        [Value::Integer(5), Value::Integer(5), Value::Integer(4), Value::Integer(1)]
    ));
    assert!(process_states_sql(3).ends_with("WHERE id IN (?,?,?)"));
    let range = ProcessQuery::Range { after: 1, through: 9, limit: 4 };
    assert!(range.sql().ends_with("WHERE p.id>?1 AND p.id<=?2 ORDER BY p.id ASC LIMIT ?3"));
    assert_eq!(range.params(), vec![1, 9, 4]);
}

fn stored(running: i64, finished_at: Option<i64>, tmux: i64) -> ProcessRow {
    ProcessRow {
        id: Ok(3),
        label: Ok("make".to_string()),
        started_at: Ok(1_000),
        state: StateRow {
            running: Ok(running),
            finished: Ok(1 - running),
            acked: Ok(0),
            finished_at: Ok(finished_at),
            exit_status: Ok(finished_at.map(|_| 2)),
        },
        host: HostRow {
            shell: Ok(1 - tmux),
            tmux: Ok(tmux),
            orchestrator_id: Ok(6),
            shell_id: Ok(Some(6)),
            shell_cwd: Ok("/w".to_string()),
            tmux_id: Ok(None),
            tmux_cwd: Err("null".to_string()),
            tmux_pane: Err("null".to_string()),
        },
    }
}

#[test]
fn process_rows_are_decoded_or_rejected() {
    let text = |row: ProcessRow| match decode_process(row, storage()) {
        Err(error) => error.message(),
        Ok(_) => panic!("the row was accepted"),
    };
    let run = decode_process(stored(0, Some(1_500), 0), storage()).unwrap();
    assert_eq!(
        run.snapshot().state,
        ProcessState::Finished { finished_at: at(1_500), exit_status: 2 }
    );
    assert_eq!(
        text(stored(0, None, 0)),
        "corrupt data: invalid process lifecycle columns"
    );
    assert_eq!(
        text(stored(1, None, 1)),
        "corrupt data: process 3 references missing tmux row 6"
    );
    assert_eq!(
        text(stored(1, None, 5)),
        "corrupt data: process 3 has invalid orchestrator flags"
    );
    assert_eq!(
        text(stored(0, Some(999), 0)),
        "corrupt data: process 3 finished before it started"
    );
    let mut row = stored(1, None, 0);
    row.label = Err("a number".to_string());
    assert_eq!(text(row), "corrupt data: invalid label: a number");
    let mut row = stored(1, None, 0);
    row.id = Ok(0);
    assert_eq!(text(row), "corrupt data: invalid process id 0");
    let mut row = stored(1, None, 0);
    row.label = Ok(String::new());
    assert_eq!(text(row), "corrupt data: process 3 has an empty label");
}

fn picture(message: Option<&str>) -> PanelSnapshot {
    PanelSnapshot {
        rows: Vec::new(),
        total_matching: 7,
        selected: Some(TrackedId::Process(2)),
        viewport_start: 3,
        history_loading: true,
        show_history: true,
        message: message.map(|text| text.to_string()),
    }
}

#[test]
fn keys_move_ask_and_quit() {
    let mut panel = Panel::empty();
    assert!(matches!(
        panel.press(KeyPress::Char('j'), None),
        Reaction::Send(PanelRequest::MoveSelection(1))
    ));
    assert!(matches!(
        panel.press(KeyPress::Up, None),
        Reaction::Send(PanelRequest::MoveSelection(-1))
    ));
    assert!(matches!(
        panel.press(KeyPress::Char('h'), None),
        Reaction::Send(PanelRequest::ToggleHistory)
    ));
    assert!(matches!(panel.press(KeyPress::Enter, None), Reaction::Nothing));
    assert!(matches!(panel.press(KeyPress::Esc, None), Reaction::Quit));
    panel.update(picture(None));
    assert!(matches!(
        panel.press(KeyPress::Enter, Some("tty".to_string())),
        Reaction::Send(PanelRequest::Focus { target: TrackedId::Process(2), args })
            if args == vec!["--client", "tty"]
    ));
}

#[test]
fn a_failed_navigation_offers_to_remove_the_item() {
    let mut panel = Panel::empty();
    let events = vec![
        PanelEvent::Updated(picture(None)),
        PanelEvent::FocusFailed {
            target: TrackedId::Agent(5),
            message: "gone".to_string(),
        },
    ];
    assert!(!consume_events(&mut panel, events, false));
    let drawing = draw(&panel, at(0));
    assert_eq!(drawing.status, "error: gone");
    assert!(drawing.failed);
    assert_eq!(
        drawing.prompt.unwrap(),
        "Navigation failed: gone\n\nDelete agent 5 from the database? (y/N)"
    );
    assert!(matches!(panel.press(KeyPress::Char('j'), None), Reaction::Nothing));
    assert!(panel.delete_prompt.is_some());
    assert!(matches!(
        panel.press(KeyPress::Char('y'), None),
        Reaction::Send(PanelRequest::Delete(TrackedId::Agent(5)))
    ));
    assert!(panel.delete_prompt.is_none());
}

#[test]
fn only_the_latest_picture_is_shown() {
    let mut panel = Panel::empty();
    let mut later = picture(None);
    later.total_matching = 8;
    let events = vec![PanelEvent::Updated(picture(None)), PanelEvent::Updated(later)];
    assert!(!consume_events(&mut panel, events, false));
    assert_eq!(
        draw(&panel, at(0)).status,
        "worklight: 8 tracked (all) (loading history), showing 0"
    );
    assert!(consume_events(&mut panel, vec![PanelEvent::Focused], false));
    assert!(consume_events(&mut panel, Vec::new(), true));
    assert!(!consume_events(&mut panel, vec![PanelEvent::Failed("no".to_string())], false));
    assert_eq!(draw(&panel, at(0)).status, "error: no");
}

#[test]
fn the_terminal_leaves_room_for_its_frame() {
    assert_eq!(viewport_rows(7), 0);
    assert_eq!(viewport_rows(24), 16);
    let area = Area { x: 0, y: 0, width: 80, height: 24 };
    assert_eq!(
        centered_popup(area, 72, 7),
        Area { x: 4, y: 8, width: 72, height: 7 }
    );
    let small = Area { x: 5, y: 6, width: 1, height: 2 };
    assert_eq!(
        centered_popup(small, 72, 7),
        Area { x: 5, y: 6, width: 1, height: 1 }
    );
}

#[test]
fn terminal_failures_are_told() {
    assert_eq!(terminal_error("lost").message(), "terminal error: lost");
    assert_eq!(
        rollback_enter("lost", Some("a".to_string()), Some("b".to_string())).message(),
        "terminal error: lost; could not leave alternate screen: a; could not disable raw mode: b"
    );
    assert!(send_request(true).is_ok());
    assert_eq!(send_request(false).unwrap_err().message(), "panel worker stopped");
    assert_eq!(
        run_outcome(Ok(()), Ok(()), None).unwrap_err().message(),
        "panel worker panicked"
    );
    assert!(matches!(
        run_outcome(Ok(()), Err(Error::ReadOnly), Some(Err(Error::NotFound(1)))),
        Err(Error::ReadOnly)
    ));
    assert!(run_outcome(Ok(()), Ok(()), Some(Ok(()))).is_ok());
}
