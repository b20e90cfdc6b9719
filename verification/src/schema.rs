//! The schema of the database: its versions, its upgrades, and the collection of
//! items that nobody will look at any more.

use vstd::prelude::*;
use vstd::string::*;

use crate::error::{map_error, plain, reported, Error, ErrorView, Failure, FailureCode};
use crate::storage::{Job, Storage};
use crate::text::{decimal, signed};

verus! {

/// The version that a new database gets.
pub const SCHEMA_VERSION: i64 = 4;

/// The version that a database without agents is brought to.
pub const AGENT_VERSION: i64 = 3;

/// How long a locked database is waited for, in milliseconds.
pub const BUSY_TIMEOUT_MS: u64 = 5_000;

/// How many items of a table are removed at a time.
pub const COLLECT_BATCH: usize = 500;

/// How many collectible items a table may hold before some are removed.
pub const COLLECT_ABOVE: i64 = 1_000;

/// The tables and indexes of a new database.
pub const SCHEMA: &'static str = "
CREATE TABLE shells (
    id INTEGER PRIMARY KEY AUTOINCREMENT,
    cwd TEXT NOT NULL
);
CREATE TABLE tmux (
    id INTEGER PRIMARY KEY AUTOINCREMENT,
    cwd TEXT NOT NULL,
    pane TEXT NOT NULL
);
CREATE TABLE processes (
    id INTEGER PRIMARY KEY AUTOINCREMENT,
    label TEXT NOT NULL,
    started_at INTEGER NOT NULL,
    running INTEGER NOT NULL DEFAULT 1 CHECK (running IN (0, 1)),
    finished INTEGER NOT NULL DEFAULT 0 CHECK (finished IN (0, 1)),
    acked INTEGER NOT NULL DEFAULT 0 CHECK (acked IN (0, 1)),
    finished_at INTEGER,
    exit_status INTEGER CHECK (exit_status BETWEEN 0 AND 255),
    shell INTEGER NOT NULL CHECK (shell IN (0, 1)),
    tmux INTEGER NOT NULL CHECK (tmux IN (0, 1)),
    orchestrator_id INTEGER NOT NULL,
    CHECK (running + finished + acked = 1),
    CHECK (shell + tmux = 1),
    CHECK ((running = 1 AND finished_at IS NULL AND exit_status IS NULL)
        OR (running = 0 AND finished_at IS NOT NULL AND exit_status IS NOT NULL))
);
CREATE INDEX processes_started ON processes(started_at DESC, id DESC);
CREATE INDEX processes_unacked ON processes(started_at DESC, id DESC) WHERE acked = 0;
CREATE INDEX processes_running ON processes(started_at DESC, id DESC) WHERE running = 1;
";

/// The table of agents, and its indexes.
pub const AGENT_SCHEMA: &'static str = "
CREATE TABLE agents (
    id INTEGER PRIMARY KEY AUTOINCREMENT,
    kind TEXT NOT NULL CHECK (length(trim(kind)) > 0),
    started_at INTEGER NOT NULL,
    status INTEGER NOT NULL CHECK (status BETWEEN 1 AND 5),
    acked INTEGER NOT NULL DEFAULT 0 CHECK (acked IN (0, 1)),
    shell INTEGER NOT NULL CHECK (shell IN (0, 1)),
    tmux INTEGER NOT NULL CHECK (tmux IN (0, 1)),
    orchestrator_id INTEGER NOT NULL,
    CHECK (shell + tmux = 1),
    CHECK (acked = 0 OR status = 4)
);
CREATE INDEX agents_started ON agents(started_at DESC, id DESC);
CREATE INDEX agents_unkilled ON agents(started_at DESC, id DESC) WHERE status != 5;
CREATE INDEX agents_active ON agents(started_at DESC, id DESC) WHERE acked = 0 AND status != 5;
";

/// The indexes that the collection goes by.
pub const COLLECTION_INDEXES: &'static str = "
CREATE INDEX processes_collectible ON processes(finished_at, id) WHERE acked = 1;
CREATE INDEX processes_shell_orchestrator ON processes(orchestrator_id) WHERE shell = 1;
CREATE INDEX processes_tmux_orchestrator ON processes(orchestrator_id) WHERE tmux = 1;
CREATE INDEX agents_collectible ON agents(started_at, id) WHERE status = 5;
CREATE INDEX agents_shell_orchestrator ON agents(orchestrator_id) WHERE shell = 1;
CREATE INDEX agents_tmux_orchestrator ON agents(orchestrator_id) WHERE tmux = 1;
";

/// What is done to a schema inside a transaction.
#[derive(Debug)]
pub enum SchemaChange {
    Keep,
    /// Run the scripts in order, and set the version.
    Apply { scripts: Vec<&'static str>, version: i64 },
}

/// Whether a version is one that items can be stored in.
pub open spec fn known_version(version: i64) -> bool {
    version == AGENT_VERSION || version == SCHEMA_VERSION
}

/// What is wrong with a schema. How many tables there are matters only where no
/// version is set.
pub open spec fn schema_fault(
    path: Seq<char>,
    version: i64,
    tables: Result<i64, Failure>,
) -> Option<ErrorView> {
    if known_version(version) {
        None
    } else if version == 0 {
        match tables {
            Err(failure) => Some(reported(failure)),
            Ok(count) => if count == 0 {
                None
            } else {
                Some(
                    ErrorView::Incompatible(
                        path + " contains tables but no Worklight schema version"@,
                    ),
                )
            },
        }
    } else if version == 2 {
        Some(
            ErrorView::Incompatible(
                path + " has schema version 2 and requires migration to version "@ + signed(
                    AGENT_VERSION as int,
                ),
            ),
        )
    } else {
        Some(
            ErrorView::Incompatible(
                path + " has schema version "@ + signed(version as int)
                    + ", but this build understands "@ + signed(SCHEMA_VERSION as int),
            ),
        )
    }
}

/// Checks that a schema is one to work with.
pub fn check_schema(path: &str, version: i64, tables: Result<i64, Failure>) -> (r: Result<
    (),
    Error,
>)
    ensures
        plain(r) == match schema_fault(path@, version, tables) {
            None => Ok::<(), ErrorView>(()),
            Some(error) => Err(error),
        },
{
    if version == AGENT_VERSION || version == SCHEMA_VERSION {
        return Ok(());
    }
    if version == 0 {
        return match tables {
            Err(failure) => Err(map_error(failure)),
            Ok(count) => {
                if count == 0 {
                    Ok(())
                } else {
                    Err(
                        Error::Incompatible(
                            path.to_owned().concat(
                                " contains tables but no Worklight schema version",
                            ),
                        ),
                    )
                }
            },
        };
    }
    let mut text: String = path.to_owned();
    if version == 2 {
        text.append(" has schema version 2 and requires migration to version ");
        text.append(decimal(AGENT_VERSION).as_str());
    } else {
        text.append(" has schema version ");
        text.append(decimal(version).as_str());
        text.append(", but this build understands ");
        text.append(decimal(SCHEMA_VERSION).as_str());
    }
    Err(Error::Incompatible(text))
}

/// Checks that a database that is there can be read.
pub fn ensure_initialized(path: &str, version: i64, tables: Result<i64, Failure>) -> (r: Result<
    (),
    Error,
>)
    ensures
        plain(r) == match schema_fault(path@, version, tables) {
            None => Ok::<(), ErrorView>(()),
            Some(error) => Err(error),
        },
{
    check_schema(path, version, tables)
}

/// The scripts and the version of a change.
pub open spec fn applies(change: SchemaChange, scripts: Seq<&'static str>, version: i64) -> bool {
    change matches SchemaChange::Apply { scripts: run, version: set } && run@ =~= scripts && set
        == version
}

/// What is done to the schema of a database that is opened for writing: one
/// without agents gets them, and is otherwise left as it is.
pub fn migrate_or_check_schema(path: &str, version: i64, tables: Result<i64, Failure>) -> (r: Result<
    SchemaChange,
    Error,
>)
    ensures
        match r {
            Ok(change) => if version == 2 {
                applies(change, seq![AGENT_SCHEMA], AGENT_VERSION)
            } else {
                change is Keep && schema_fault(path@, version, tables) is None
            },
            Err(error) => version != 2 && schema_fault(path@, version, tables) == Some(error@),
        },
{
    if version == 2 {
        return Ok(
            SchemaChange::Apply { scripts: vec![AGENT_SCHEMA], version: AGENT_VERSION },
        );
    }
    match check_schema(path, version, tables) {
        Ok(()) => Ok(SchemaChange::Keep),
        Err(error) => Err(error),
    }
}

/// What is done to the schema before something is written: an empty database
/// gets all tables and indexes.
pub fn initialize_schema(path: &str, version: i64, tables: Result<i64, Failure>) -> (r: Result<
    SchemaChange,
    Error,
>)
    ensures
        match r {
            Ok(change) => schema_fault(path@, version, tables) is None && if version == 0 {
                applies(change, seq![SCHEMA, AGENT_SCHEMA, COLLECTION_INDEXES], SCHEMA_VERSION)
            } else {
                change is Keep
            },
            Err(error) => schema_fault(path@, version, tables) == Some(error@),
        },
{
    match check_schema(path, version, tables) {
        Err(error) => Err(error),
        Ok(()) => {
            if version == 0 {
                Ok(
                    SchemaChange::Apply {
                        scripts: vec![SCHEMA, AGENT_SCHEMA, COLLECTION_INDEXES],
                        version: SCHEMA_VERSION,
                    },
                )
            } else {
                Ok(SchemaChange::Keep)
            }
        },
    }
}

/// The statement that counts the tables of a database.
pub fn count_tables_sql() -> (r: &'static str)
    ensures
        r@
            == "SELECT count(*) FROM sqlite_master WHERE type='table' AND name NOT LIKE 'sqlite_%'"@,
{
    "SELECT count(*) FROM sqlite_master WHERE type='table' AND name NOT LIKE 'sqlite_%'"
}

/// Which tables hold so many collectible items that some are removed.
#[derive(Clone, Copy, Debug, PartialEq, Eq, Structural)]
pub struct Collection {
    /// Whether the indexes that the collection goes by are missing.
    pub add_indexes: bool,
    pub processes: bool,
    pub agents: bool,
}

/// What the collection does, given how many acknowledged commands and killed
/// agents there are.
pub open spec fn collection_of(version: i64, processes: i64, agents: i64) -> Option<Collection> {
    if known_version(version) && (processes > COLLECT_ABOVE || agents > COLLECT_ABOVE) {
        Some(
            Collection {
                add_indexes: version == AGENT_VERSION,
                processes: processes > COLLECT_ABOVE,
                agents: agents > COLLECT_ABOVE,
            },
        )
    } else {
        None
    }
}

/// Whether items are collected from a database with a schema of the given
/// version.
pub fn collects_from(version: i64) -> (r: bool)
    ensures
        r == known_version(version),
{
    version == AGENT_VERSION || version == SCHEMA_VERSION
}

impl Storage {
    /// What is collected, given how many acknowledged commands and killed agents
    /// there are.
    pub fn collect_stale(version: i64, processes: i64, agents: i64) -> (r: Option<Collection>)
        ensures
            r == collection_of(version, processes, agents),
    {
        if !collects_from(version) {
            return None;
        }
        if processes <= COLLECT_ABOVE && agents <= COLLECT_ABOVE {
            return None;
        }
        Some(
            Collection {
                add_indexes: version == AGENT_VERSION,
                processes: processes > COLLECT_ABOVE,
                agents: agents > COLLECT_ABOVE,
            },
        )
    }
}

impl Collection {
    /// What is done to the schema before items are removed.
    pub fn schema_change(&self) -> (r: SchemaChange)
        ensures
            if self.add_indexes {
                applies(r, seq![COLLECTION_INDEXES], SCHEMA_VERSION)
            } else {
                r is Keep
            },
    {
        if self.add_indexes {
            SchemaChange::Apply { scripts: vec![COLLECTION_INDEXES], version: SCHEMA_VERSION }
        } else {
            SchemaChange::Keep
        }
    }

    /// The jobs that remove the items with the given numbers.
    pub fn jobs(&self, processes: &Vec<i64>, agents: &Vec<i64>) -> (r: Vec<Job>)
        ensures
            r@ == process_removals(
                if self.processes {
                    processes@
                } else {
                    Seq::empty()
                },
            ) + agent_removals(
                if self.agents {
                    agents@
                } else {
                    Seq::empty()
                },
            ),
    {
        let mut jobs: Vec<Job> = Vec::new();
        if self.processes {
            let mut i: usize = 0;
            while i < processes.len()
                invariant
                    i <= processes.len(),
                    jobs@ == process_removals(processes@.take(i as int)),
                decreases processes.len() - i,
            {
                jobs.push(Job::DeleteProcess { id: processes[i] });
                i = i + 1;
                assert(jobs@ =~= process_removals(processes@.take(i as int)));
            }
            assert(processes@.take(processes@.len() as int) =~= processes@);
        }
        let ghost first = jobs@;
        if self.agents {
            let mut i: usize = 0;
            assert(jobs@ =~= first + agent_removals(agents@.take(0)));
            while i < agents.len()
                invariant
                    i <= agents.len(),
                    jobs@ == first + agent_removals(agents@.take(i as int)),
                decreases agents.len() - i,
            {
                jobs.push(Job::DeleteAgent { id: agents[i] });
                i = i + 1;
                assert(jobs@ =~= first + agent_removals(agents@.take(i as int)));
            }
            assert(agents@.take(agents@.len() as int) =~= agents@);
        }
        jobs
    }
}

/// The removal of commands.
pub open spec fn process_removals(ids: Seq<i64>) -> Seq<Job> {
    ids.map_values(|id: i64| Job::DeleteProcess { id })
}

/// The removal of agents.
pub open spec fn agent_removals(ids: Seq<i64>) -> Seq<Job> {
    ids.map_values(|id: i64| Job::DeleteAgent { id })
}

/// The statement that counts the acknowledged commands.
pub fn count_collectible_processes_sql() -> (r: &'static str)
    ensures
        r@ == "SELECT count(*) FROM processes WHERE acked=1"@,
{
    "SELECT count(*) FROM processes WHERE acked=1"
}

/// The statement that counts the killed agents.
pub fn count_collectible_agents_sql() -> (r: &'static str)
    ensures
        r@ == "SELECT count(*) FROM agents WHERE status=5"@,
{
    "SELECT count(*) FROM agents WHERE status=5"
}

/// The statement for the commands to remove: the acknowledged ones that ended
/// first.
pub fn collectible_processes_sql() -> (r: &'static str)
    ensures
        r@
            == "SELECT id FROM processes WHERE acked=1 ORDER BY finished_at ASC,id ASC LIMIT 500"@,
{
    "SELECT id FROM processes WHERE acked=1 ORDER BY finished_at ASC,id ASC LIMIT 500"
}

/// The statement for the agents to remove: the killed ones that started first.
pub fn collectible_agents_sql() -> (r: &'static str)
    ensures
        r@ == "SELECT id FROM agents WHERE status=5 ORDER BY started_at ASC,id ASC LIMIT 500"@,
{
    "SELECT id FROM agents WHERE status=5 ORDER BY started_at ASC,id ASC LIMIT 500"
}

/// What a failure to start a collection leads to: a database that is in use is
/// left for another time.
pub fn collection_failed(failure: Failure) -> (r: Result<(), Error>)
    ensures
        plain(r) == if failure.code == FailureCode::Busy || failure.code == FailureCode::Locked {
            Ok::<(), ErrorView>(())
        } else {
            Err(reported(failure))
        },
{
    if failure.code == FailureCode::Busy || failure.code == FailureCode::Locked {
        Ok(())
    } else {
        Err(map_error(failure))
    }
}

/// A schema that was created or upgraded is one to work with.
pub proof fn changed_schemas_are_accepted(path: Seq<char>, change: SchemaChange, tables: Result<
    i64,
    Failure,
>)
    requires
        applies(change, seq![AGENT_SCHEMA], AGENT_VERSION) || applies(
            change,
            seq![SCHEMA, AGENT_SCHEMA, COLLECTION_INDEXES],
            SCHEMA_VERSION,
        ) || applies(change, seq![COLLECTION_INDEXES], SCHEMA_VERSION),
    ensures
        schema_fault(path, change->version, tables) is None,
{
}

} // verus!
