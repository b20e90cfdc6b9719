//! Storage, driven against a real database.

#![allow(dead_code)]

use std::cell::{Cell, RefCell};
use std::path::{Path, PathBuf};
use std::time::{Duration, SystemTime, UNIX_EPOCH};

use rusqlite::{params_from_iter, Connection, OpenFlags, Row, TransactionBehavior};

use worklight::agent::{AgentRun, AgentStatus};
use worklight::error::{map_error, Error, Failure, FailureCode};
use worklight::orchestrator::Environment;
use worklight::process::{ProcessRun, ProcessState};
use worklight::query::{self, AgentQuery, AgentStatusRow, Fetch, ProcessQuery, ProcessStateRow};
use worklight::rows::{AgentRow, AgentStateRow, HostRow, ProcessRow, StateRow};
use worklight::schema::{self, Collection, SchemaChange};
use worklight::storage::{Access, Job, Storage};
use worklight::time::Timestamp;
use worklight::transaction::{Action, Answer, Outcome, Statement, Transaction, Value};
use worklight::error::NavigationError;
use worklight::focus::{FocusEvent, FocusStep};
use worklight::orchestrator::NavigationStep;

/// A directory for one database, and the handles that were opened on it.
struct Fixture {
    _directory: tempfile::TempDir,
    path: PathBuf,
    opened: Cell<u64>,
}

impl Fixture {
    fn new() -> Self {
        let directory = tempfile::tempdir().unwrap();
        let path = directory.path().join("worklight.db");
        Fixture { _directory: directory, path, opened: Cell::new(0) }
    }

    fn path(&self) -> &Path {
        &self.path
    }

    fn handle(&self) -> u64 {
        self.opened.set(self.opened.get() + 1);
        self.opened.get()
    }

    fn storage(&self) -> Store {
        Store::open(&self.path, self.handle()).unwrap()
    }

    fn readonly(&self) -> Store {
        Store::open_read_only(&self.path, self.handle()).unwrap()
    }
}

fn now() -> Timestamp {
    let passed = SystemTime::now().duration_since(UNIX_EPOCH).unwrap();
    Timestamp { nanos: passed.as_nanos() as i128 }
}

fn failure(error: rusqlite::Error) -> Failure {
    let detail = error.to_string();
    match error {
        rusqlite::Error::SqliteFailure(cause, message) => Failure {
            code: match cause.code {
                rusqlite::ErrorCode::DatabaseBusy => FailureCode::Busy,
                rusqlite::ErrorCode::DatabaseLocked => FailureCode::Locked,
                rusqlite::ErrorCode::NotADatabase => FailureCode::NotADatabase,
                rusqlite::ErrorCode::DatabaseCorrupt => FailureCode::Corrupt,
                rusqlite::ErrorCode::ReadOnly => FailureCode::ReadOnly,
                _ => FailureCode::Other,
            },
            detail: message.unwrap_or(detail),
        },
        _ => Failure { code: FailureCode::Other, detail },
    }
}

fn failed(error: rusqlite::Error) -> Error {
    map_error(failure(error))
}

fn column<T: rusqlite::types::FromSql>(row: &Row<'_>, index: usize) -> Result<T, String> {
    row.get(index).map_err(|error| error.to_string())
}

fn state_row(row: &Row<'_>, at: usize) -> StateRow {
    StateRow {
        running: column(row, at),
        finished: column(row, at + 1),
        acked: column(row, at + 2),
        finished_at: column(row, at + 3),
        exit_status: column(row, at + 4),
    }
}

fn agent_state_row(row: &Row<'_>, at: usize) -> AgentStateRow {
    AgentStateRow { status: column(row, at), acked: column(row, at + 1) }
}

fn host_row(row: &Row<'_>, at: usize) -> HostRow {
    HostRow {
        shell: column(row, at),
        tmux: column(row, at + 1),
        orchestrator_id: column(row, at + 2),
        shell_id: column(row, at + 3),
        shell_cwd: column(row, at + 4),
        tmux_id: column(row, at + 5),
        tmux_cwd: column(row, at + 6),
        tmux_pane: column(row, at + 7),
    }
}

fn process_row(row: &Row<'_>) -> ProcessRow {
    ProcessRow {
        id: column(row, 0),
        label: column(row, 1),
        started_at: column(row, 2),
        state: state_row(row, 3),
        host: host_row(row, 8),
    }
}

fn agent_row(row: &Row<'_>) -> AgentRow {
    AgentRow {
        id: column(row, 0),
        kind: column(row, 1),
        started_at: column(row, 2),
        state: agent_state_row(row, 3),
        host: host_row(row, 5),
    }
}

fn fetch_rows<R>(
    connection: &Connection,
    sql: &str,
    values: &[i64],
    read: fn(&Row<'_>) -> R,
) -> Fetch<R> {
    let mut statement = match connection.prepare(sql) {
        Ok(statement) => statement,
        Err(error) => return Fetch::Rows { rows: Vec::new(), failure: Some(failure(error)) },
    };
    let mut rows = match statement.query(params_from_iter(values.iter())) {
        Ok(rows) => rows,
        Err(error) => return Fetch::Rows { rows: Vec::new(), failure: Some(failure(error)) },
    };
    let mut read_rows = Vec::new();
    loop {
        match rows.next() {
            Ok(Some(row)) => read_rows.push(read(row)),
            Ok(None) => return Fetch::Rows { rows: read_rows, failure: None },
            Err(error) => {
                return Fetch::Rows { rows: read_rows, failure: Some(failure(error)) };
            }
        }
    }
}

fn version_of(connection: &Connection) -> Result<i64, Error> {
    connection.pragma_query_value(None, "user_version", |row| row.get(0)).map_err(failed)
}

fn tables_in(connection: &Connection, version: i64) -> Result<i64, Failure> {
    if version != 0 {
        return Ok(0);
    }
    connection.query_row(schema::count_tables_sql(), [], |row| row.get(0)).map_err(failure)
}

fn apply(connection: &Connection, change: SchemaChange) -> Result<(), Error> {
    if let SchemaChange::Apply { scripts, version } = change {
        for script in scripts {
            connection.execute_batch(script).map_err(failed)?;
        }
        connection.pragma_update(None, "user_version", version).map_err(failed)?;
    }
    Ok(())
}

fn value(value: Value) -> rusqlite::types::Value {
    match value {
        Value::Integer(number) => rusqlite::types::Value::Integer(number),
        Value::Text(text) => rusqlite::types::Value::Text(text),
    }
}

fn optional<T>(found: rusqlite::Result<T>, answer: fn(Option<T>) -> Answer) -> Answer {
    match found {
        Ok(row) => answer(Some(row)),
        Err(rusqlite::Error::QueryReturnedNoRows) => answer(None),
        Err(error) => Answer::Failed(failure(error)),
    }
}

fn execute(connection: &Connection, statement: &Statement) -> Answer {
    let sql = statement.sql();
    let values = params_from_iter(statement.params().into_iter().map(value));
    match statement {
        Statement::InsertShell { .. }
        | Statement::InsertTmux { .. }
        | Statement::InsertProcess { .. }
        | Statement::InsertAgent { .. } => match connection.execute(sql, values) {
            Ok(_) => Answer::Inserted(connection.last_insert_rowid()),
            Err(error) => Answer::Failed(failure(error)),
        },
        Statement::FinishProcess { .. }
        | Statement::AcknowledgeProcess { .. }
        | Statement::SetStatus { .. }
        | Statement::AcknowledgeAgent { .. }
        | Statement::DeleteRow { .. }
        | Statement::DeleteHost { .. } => match connection.execute(sql, values) {
            Ok(count) => Answer::Changed(count),
            Err(error) => Answer::Failed(failure(error)),
        },
        Statement::ReadState { .. } => {
            optional(connection.query_row(sql, values, |row| Ok(state_row(row, 0))), Answer::State)
        }
        Statement::ReadAgentState { .. } => optional(
            connection.query_row(sql, values, |row| Ok(agent_state_row(row, 0))),
            Answer::AgentState,
        ),
        Statement::ReadReference { .. } => optional(
            connection.query_row(sql, values, |row| Ok((row.get(0)?, row.get(1)?, row.get(2)?))),
            Answer::Reference,
        ),
        Statement::CountReferences { .. } => {
            match connection.query_row(sql, values, |row| row.get(0)) {
                Ok(count) => Answer::Count(count),
                Err(error) => Answer::Failed(failure(error)),
            }
        }
    }
}

fn carry_out(connection: &Connection, storage: Storage, job: Job) -> Result<Outcome, Error> {
    let mut action = Transaction::begin(storage, job);
    loop {
        match action {
            Action::Run { statement, rest } => {
                let answer = execute(connection, &statement);
                action = rest.advance(answer, now());
            }
            Action::Commit(outcome) => return Ok(outcome),
            Action::Abort(error) => return Err(error),
        }
    }
}

/// A database, driven by the library.
struct Store {
    path: PathBuf,
    storage: Storage,
    connection: RefCell<Option<Connection>>,
}

impl Store {
    fn open(path: &Path, handle: u64) -> Result<Store, Error> {
        Store::open_with(path, Storage { handle, read_only: false })
    }

    fn open_read_only(path: &Path, handle: u64) -> Result<Store, Error> {
        Store::open_with(path, Storage { handle, read_only: true })
    }

    fn open_with(path: &Path, wanted: Storage) -> Result<Store, Error> {
        let mut store = Store {
            path: path.to_path_buf(),
            storage: wanted,
            connection: RefCell::new(None),
        };
        let schema = store.connect().map(|_| ());
        store.storage = if wanted.read_only {
            Storage::open_read_only(wanted.handle, schema)?
        } else {
            Storage::open(wanted.handle, schema)?
        };
        Ok(store)
    }

    /// Whether there is a database, connected to where there is.
    fn connect(&self) -> Result<bool, Error> {
        let mut slot = self.connection.borrow_mut();
        let access = self.storage.readable(slot.is_some(), self.path.exists());
        let flags = match access {
            Access::Ready => return Ok(true),
            Access::Absent => return Ok(false),
            Access::Check => OpenFlags::SQLITE_OPEN_READ_ONLY,
            Access::Migrate => OpenFlags::SQLITE_OPEN_READ_WRITE,
        };
        let mut connection = Connection::open_with_flags(&self.path, flags).map_err(failed)?;
        connection
            .busy_timeout(Duration::from_millis(schema::BUSY_TIMEOUT_MS))
            .map_err(failed)?;
        if access == Access::Check {
            self.check(&connection)?;
        } else {
            let transaction = connection
                .transaction_with_behavior(TransactionBehavior::Immediate)
                .map_err(failed)?;
            let version = version_of(&transaction)?;
            let tables = tables_in(&transaction, version);
            apply(
                &transaction,
                schema::migrate_or_check_schema(&self.path.to_string_lossy(), version, tables)?,
            )?;
            transaction.commit().map_err(failed)?;
        }
        *slot = Some(connection);
        Ok(true)
    }

    fn check(&self, connection: &Connection) -> Result<(), Error> {
        let version = version_of(connection)?;
        let tables = tables_in(connection, version);
        schema::ensure_initialized(&self.path.to_string_lossy(), version, tables)
    }

    fn fetch<R>(&self, sql: &str, values: &[i64], read: fn(&Row<'_>) -> R) -> Fetch<R> {
        match self.connect() {
            Err(error) => return Fetch::Refused(error),
            Ok(false) => return Fetch::Absent,
            Ok(true) => {}
        }
        let slot = self.connection.borrow();
        let connection = slot.as_ref().unwrap();
        if let Err(error) = self.check(connection) {
            return Fetch::Refused(error);
        }
        fetch_rows(connection, sql, values, read)
    }

    fn write(&self, job: Job) -> Result<Outcome, Error> {
        self.storage.writable()?;
        self.connect()?;
        let mut slot = self.connection.borrow_mut();
        if slot.is_none() {
            *slot = Some(Connection::open(&self.path).map_err(failed)?);
        }
        let connection = slot.as_mut().unwrap();
        let transaction = connection
            .transaction_with_behavior(TransactionBehavior::Immediate)
            .map_err(failed)?;
        let version = version_of(&transaction)?;
        let tables = tables_in(&transaction, version);
        apply(
            &transaction,
            schema::initialize_schema(&self.path.to_string_lossy(), version, tables)?,
        )?;
        transaction.commit().map_err(failed)?;
        let transaction = connection
            .transaction_with_behavior(TransactionBehavior::Immediate)
            .map_err(failed)?;
        let outcome = carry_out(&transaction, self.storage, job)?;
        transaction.commit().map_err(failed)?;
        Ok(outcome)
    }

    fn processes(&self, query: ProcessQuery) -> Result<Vec<ProcessRun>, Error> {
        self.storage.query_processes(self.fetch(&query.sql(), &query.params(), process_row))
    }

    fn agents(&self, query: AgentQuery) -> Result<Vec<AgentRun>, Error> {
        self.storage.query_agents(self.fetch(&query.sql(), &query.params(), agent_row))
    }

    fn latest(&self, sql: &str) -> Result<Option<Option<i64>>, Error> {
        if !self.connect()? {
            return Ok(None);
        }
        let slot = self.connection.borrow();
        let connection = slot.as_ref().unwrap();
        self.check(connection)?;
        connection.query_row(sql, [], |row| row.get(0)).map(Some).map_err(failed)
    }

    fn environment(&self) -> Environment {
        Environment { cwd: Ok("/work".to_string()), vars: Vec::new() }
    }

    fn start_process(&self, label: &str) -> Result<ProcessRun, Error> {
        started(self.write(self.storage.start_process(label, &self.environment())?))
    }

    fn create_process(
        &self,
        label: &str,
        cwd: &str,
        pane: Option<&str>,
    ) -> Result<ProcessRun, Error> {
        let pane = pane.map(|pane| pane.to_string());
        started(self.write(self.storage.create_process(label, cwd.to_string(), pane)))
    }

    fn register_agent(&self, kind: &str) -> Result<AgentRun, Error> {
        registered(self.write(self.storage.register_agent(kind, &self.environment())?))
    }

    fn create_agent(&self, kind: &str, cwd: &str, pane: Option<&str>) -> Result<AgentRun, Error> {
        let pane = pane.map(|pane| pane.to_string());
        registered(self.write(self.storage.create_agent(kind, cwd.to_string(), pane)?))
    }

    fn get_process(&self, id: i64) -> Result<ProcessRun, Error> {
        let query = self.storage.get_process(id)?;
        self.storage.found_process(id, self.processes(query))
    }

    fn get_agent(&self, id: i64) -> Result<AgentRun, Error> {
        let query = self.storage.get_agent(id)?;
        self.storage.found_agent(id, self.agents(query))
    }

    fn all_process(&self) -> Result<Vec<ProcessRun>, Error> {
        self.processes(self.storage.all_process())
    }

    fn running_process(&self) -> Result<Vec<ProcessRun>, Error> {
        self.processes(self.storage.running_process())
    }

    fn unacked_process(&self) -> Result<Vec<ProcessRun>, Error> {
        self.processes(self.storage.unacked_process())
    }

    fn range_process(
        &self,
        after: i64,
        through: i64,
        limit: usize,
    ) -> Result<Vec<ProcessRun>, Error> {
        self.processes(self.storage.range_process(after, through, limit)?)
    }

    fn latest_process(&self) -> Result<Option<i64>, Error> {
        self.storage.latest_process(self.latest(query::latest_process_sql()))
    }

    fn all_agent(&self) -> Result<Vec<AgentRun>, Error> {
        self.agents(self.storage.all_agent())
    }

    fn active_agent(&self) -> Result<Vec<AgentRun>, Error> {
        self.agents(self.storage.active_agent())
    }

    fn unkilled_agent(&self) -> Result<Vec<AgentRun>, Error> {
        self.agents(self.storage.unkilled_agent())
    }

    fn range_agent(&self, after: i64, through: i64, limit: usize) -> Result<Vec<AgentRun>, Error> {
        self.agents(self.storage.range_agent(after, through, limit)?)
    }

    fn latest_agent(&self) -> Result<Option<i64>, Error> {
        self.storage.latest_agent(self.latest(query::latest_agent_sql()))
    }

    fn process_states(&self, ids: &Vec<i64>) -> Fetch<ProcessStateRow> {
        let read = |row: &Row<'_>| ProcessStateRow { id: column(row, 0), state: state_row(row, 1) };
        let mut all = Vec::new();
        for chunk in query::state_chunks(ids) {
            match self.fetch(&query::process_states_sql(chunk.len()), &chunk, read) {
                Fetch::Rows { rows, failure } => {
                    all.extend(rows);
                    if failure.is_some() {
                        return Fetch::Rows { rows: all, failure };
                    }
                }
                other => return other,
            }
        }
        Fetch::Rows { rows: all, failure: None }
    }

    fn agent_states(&self, ids: &Vec<i64>) -> Fetch<AgentStatusRow> {
        let read =
            |row: &Row<'_>| AgentStatusRow { id: column(row, 0), state: agent_state_row(row, 1) };
        let mut all = Vec::new();
        for chunk in query::state_chunks(ids) {
            match self.fetch(&query::agent_states_sql(chunk.len()), &chunk, read) {
                Fetch::Rows { rows, failure } => {
                    all.extend(rows);
                    if failure.is_some() {
                        return Fetch::Rows { rows: all, failure };
                    }
                }
                other => return other,
            }
        }
        Fetch::Rows { rows: all, failure: None }
    }

    fn state_process(&self, id: i64) -> Result<ProcessState, Error> {
        self.storage.state_process(id, self.process_states(&vec![id]))
    }

    fn state_agent(&self, id: i64) -> Result<(AgentStatus, bool), Error> {
        self.storage.state_agent(id, self.agent_states(&vec![id]))
    }

    fn sync_process(&self, processes: &mut Vec<ProcessRun>) -> Result<(), Error> {
        let ids = self.storage.pending_process(processes)?;
        self.storage.sync_process(processes, self.process_states(&ids))
    }

    fn sync_agent(&self, agents: &mut Vec<AgentRun>) -> Result<(), Error> {
        let ids = self.storage.pending_agent(agents)?;
        self.storage.sync_agent(agents, self.agent_states(&ids))
    }

    fn finish(&self, process: &mut ProcessRun, status: u8) -> Result<(), Error> {
        process.finish(state(self.write(self.storage.finish_process(process.id(), status))))
    }

    fn acknowledge(&self, process: &mut ProcessRun) -> Result<(), Error> {
        process.acknowledge(state(self.write(self.storage.acknowledge_process(process.id()))))
    }

    fn state_of(&self, process: &mut ProcessRun) -> Result<ProcessState, Error> {
        process.state(self.state_process(process.id()))
    }

    fn set_status_agent(
        &self,
        id: i64,
        wanted: AgentStatus,
    ) -> Result<(AgentStatus, bool), Error> {
        status(self.write(self.storage.set_status_agent(id, wanted)))
    }

    fn acknowledge_agent(&self, id: i64) -> Result<(AgentStatus, bool), Error> {
        status(self.write(self.storage.acknowledge_agent(id)))
    }

    fn acknowledge_agent_if_done(&self, id: i64) -> Result<(AgentStatus, bool), Error> {
        status(self.write(self.storage.acknowledge_agent_if_done(id)))
    }

    fn set_status(&self, agent: &mut AgentRun, wanted: AgentStatus) -> Result<(), Error> {
        agent.set_status(self.set_status_agent(agent.id(), wanted))
    }

    fn acknowledge_run(&self, agent: &mut AgentRun) -> Result<(), Error> {
        agent.acknowledge(self.acknowledge_agent(agent.id()))
    }

    fn delete_process(&self, id: i64) -> Result<(), Error> {
        self.write(self.storage.delete_process(id)).map(|_| ())
    }

    fn delete_agent(&self, id: i64) -> Result<(), Error> {
        self.write(self.storage.delete_agent(id)).map(|_| ())
    }
}

fn started(written: Result<Outcome, Error>) -> Result<ProcessRun, Error> {
    match written? {
        Outcome::Started(process) => Ok(process),
        _ => panic!("no command was started"),
    }
}

fn registered(written: Result<Outcome, Error>) -> Result<AgentRun, Error> {
    match written? {
        Outcome::Registered(agent) => Ok(agent),
        _ => panic!("no agent was registered"),
    }
}

fn state(written: Result<Outcome, Error>) -> Result<ProcessState, Error> {
    match written? {
        Outcome::State(state) => Ok(state),
        _ => panic!("no state was written"),
    }
}

fn status(written: Result<Outcome, Error>) -> Result<(AgentStatus, bool), Error> {
    match written? {
        Outcome::AgentState { status, acknowledged } => Ok((status, acknowledged)),
        _ => panic!("no status was written"),
    }
}

fn numbers(connection: &Connection, sql: &str) -> rusqlite::Result<Vec<i64>> {
    let mut statement = connection.prepare(sql)?;
    let mut rows = statement.query([])?;
    let mut ids = Vec::new();
    while let Some(row) = rows.next()? {
        ids.push(row.get(0)?);
    }
    Ok(ids)
}

/// What is to be collected now.
fn collection_due(connection: &Connection) -> Result<Option<Collection>, Error> {
    let version = version_of(connection)?;
    if !schema::collects_from(version) {
        return Ok(None);
    }
    let count = |sql: &str| connection.query_row(sql, [], |row| row.get::<_, i64>(0));
    let processes = count(schema::count_collectible_processes_sql()).map_err(failed)?;
    let agents = count(schema::count_collectible_agents_sql()).map_err(failed)?;
    Ok(Storage::collect_stale(version, processes, agents))
}

/// Removes old items, as far as there are too many of them.
fn collect_stale(path: &Path) -> Result<(), Error> {
    if !path.exists() {
        return Ok(());
    }
    let mut connection =
        Connection::open_with_flags(path, OpenFlags::SQLITE_OPEN_READ_WRITE).map_err(failed)?;
    if collection_due(&connection)?.is_none() {
        return Ok(());
    }
    connection.busy_timeout(Duration::ZERO).map_err(failed)?;
    let transaction =
        match connection.transaction_with_behavior(TransactionBehavior::Immediate) {
            Ok(transaction) => transaction,
            Err(error) => return schema::collection_failed(failure(error)),
        };
    // Another collection may have run before this transaction began.
    let Some(collection) = collection_due(&transaction)? else {
        return Ok(());
    };
    apply(&transaction, collection.schema_change())?;
    let processes =
        numbers(&transaction, schema::collectible_processes_sql()).map_err(failed)?;
    let agents = numbers(&transaction, schema::collectible_agents_sql()).map_err(failed)?;
    let storage = Storage { handle: 0, read_only: false };
    for job in collection.jobs(&processes, &agents) {
        carry_out(&transaction, storage, job)?;
    }
    transaction.commit().map_err(failed)
}

const STATUSES: [AgentStatus; 5] = [
    AgentStatus::Idle,
    AgentStatus::Working,
    AgentStatus::Waiting,
    AgentStatus::Done,
    AgentStatus::Killed,
];

fn at(millis: i128) -> Timestamp {
    Timestamp { nanos: millis * 1_000_000 }
}

fn ids(agents: Vec<AgentRun>) -> Vec<i64> {
    agents.into_iter().map(|agent| agent.id()).collect()
}

fn count(connection: &Connection, table: &str) -> i64 {
    connection
        .query_row(&format!("SELECT count(*) FROM {table}"), [], |row| row.get(0))
        .unwrap()
}

fn count_where(connection: &Connection, table: &str, predicate: &str) -> i64 {
    connection
        .query_row(&format!("SELECT count(*) FROM {table} WHERE {predicate}"), [], |row| {
            row.get(0)
        })
        .unwrap()
}

fn user_version(connection: &Connection) -> i64 {
    connection.pragma_query_value(None, "user_version", |row| row.get(0)).unwrap()
}

#[test]
fn observations_accept_missed_cycles_and_reject_impossible_state() {
    let fixture = Fixture::new();
    let storage = fixture.storage();

    let mut idle = storage.create_agent("pi", "/idle", None).unwrap();
    idle.observe(AgentStatus::Done, false).unwrap();

    let mut waiting = storage.create_agent("pi", "/waiting", None).unwrap();
    waiting.observe(AgentStatus::Working, false).unwrap();
    waiting.observe(AgentStatus::Waiting, false).unwrap();
    waiting.observe(AgentStatus::Done, false).unwrap();

    let mut acknowledged = storage.create_agent("pi", "/done", None).unwrap();
    acknowledged.observe(AgentStatus::Done, true).unwrap();
    acknowledged.observe(AgentStatus::Waiting, false).unwrap();

    let mut completed_cycle = storage.create_agent("pi", "/cycle", None).unwrap();
    completed_cycle.observe(AgentStatus::Done, true).unwrap();
    completed_cycle.observe(AgentStatus::Done, false).unwrap();
    completed_cycle.observe(AgentStatus::Done, true).unwrap();

    let old = completed_cycle.snapshot();
    assert!(matches!(
        completed_cycle.observe(AgentStatus::Working, true),
        Err(Error::CorruptData(_))
    ));
    assert_eq!(completed_cycle.snapshot().status, old.status);
    assert_eq!(completed_cycle.snapshot().acknowledged, old.acknowledged);
    assert!(matches!(
        completed_cycle.observe(AgentStatus::Idle, false),
        Err(Error::CorruptData(_))
    ));

    let mut killed = storage.create_agent("pi", "/killed", None).unwrap();
    killed.observe(AgentStatus::Killed, false).unwrap();
    assert!(!killed.needs_sync());
    assert!(matches!(
        killed.observe(AgentStatus::Working, false),
        Err(Error::CorruptData(_))
    ));
}

#[test]
fn shell_and_tmux_registration_owns_independent_rows_and_ids_can_overlap() {
    let fixture = Fixture::new();
    let storage = fixture.storage();
    let process = storage.create_process("process", "/process", None).unwrap();
    let shell = storage.create_agent("pi", "/shell", None).unwrap();
    let tmux = storage.create_agent("pi", "/tmux", Some("%42")).unwrap();

    assert_eq!(process.id(), shell.id());
    assert_eq!(shell.snapshot().status, AgentStatus::Idle);
    assert!(!shell.snapshot().acknowledged);
    assert_eq!(shell.orchestrator().kind(), "shell");
    assert_eq!(tmux.orchestrator().kind(), "tmux");
    assert_ne!(
        shell.orchestrator().id(),
        process.orchestrator().id(),
        "shell={}, process={}",
        shell.orchestrator().id(),
        process.orchestrator().id()
    );
    assert_eq!(tmux.snapshot().orchestrator.kind(), "tmux");
    assert!(shell.started_at().nanos <= now().nanos);

    let connection = Connection::open(fixture.path()).unwrap();
    assert_eq!(count(&connection, "shells"), 2);
    assert_eq!(count(&connection, "tmux"), 1);
    assert_eq!(count(&connection, "agents"), 2);
}

#[test]
fn invalid_registration_has_no_partial_insert() {
    let fixture = Fixture::new();
    let storage = fixture.storage();
    assert!(matches!(storage.register_agent("  "), Err(Error::Invalid(_))));
    assert!(matches!(
        storage.create_agent("  ", "/tmp", None),
        Err(Error::Invalid(_))
    ));
    assert!(matches!(
        storage.create_agent("pi", "/tmp", Some("")),
        Err(Error::Invalid(_))
    ));
    let connection = Connection::open(fixture.path()).unwrap();
    assert_eq!(count(&connection, "shells"), 0);
    assert_eq!(count(&connection, "tmux"), 0);
    assert_eq!(count(&connection, "agents"), 0);
}

#[test]
fn failed_agent_insert_rolls_back_its_orchestrator_row() {
    let fixture = Fixture::new();
    let storage = fixture.storage();
    storage.create_agent("seed", "/seed", None).unwrap();
    let connection = Connection::open(fixture.path()).unwrap();
    connection
        .execute_batch(
            "CREATE TRIGGER reject_agent_insert BEFORE INSERT ON agents BEGIN SELECT RAISE(ABORT, 'failure'); END;",
        )
        .unwrap();
    assert!(matches!(
        storage.create_agent("pi", "/tmp", None),
        Err(Error::Database(_))
    ));
    assert_eq!(count(&connection, "agents"), 1);
    assert_eq!(count(&connection, "shells"), 1);
}

#[test]
fn queries_ranges_and_filters_have_specified_membership() {
    let fixture = Fixture::new();
    let storage = fixture.storage();
    let mut idle = storage.create_agent("idle", "/a", None).unwrap();
    let mut done = storage.create_agent("done", "/b", None).unwrap();
    let mut killed = storage.create_agent("killed", "/c", None).unwrap();
    storage.set_status(&mut done, AgentStatus::Working).unwrap();
    storage.set_status(&mut done, AgentStatus::Done).unwrap();
    storage.acknowledge_run(&mut done).unwrap();
    storage.set_status(&mut killed, AgentStatus::Killed).unwrap();

    assert_eq!(storage.latest_agent().unwrap(), Some(killed.id()));
    assert_eq!(ids(storage.active_agent().unwrap()), vec![idle.id()]);
    assert_eq!(
        ids(storage.unkilled_agent().unwrap()),
        vec![done.id(), idle.id()]
    );
    assert_eq!(
        ids(storage.all_agent().unwrap()),
        vec![killed.id(), done.id(), idle.id()]
    );
    assert_eq!(
        ids(storage.range_agent(0, killed.id(), 2).unwrap()),
        vec![idle.id(), done.id()]
    );
    assert!(matches!(
        storage.range_agent(0, killed.id(), 0),
        Err(Error::Invalid(_))
    ));
    idle.status(storage.state_agent(idle.id())).unwrap();
}

#[test]
fn persisted_mutations_enforce_transitions_and_acknowledgment() {
    let fixture = Fixture::new();
    let storage = fixture.storage();
    let mut agent = storage.create_agent("pi", "/tmp", None).unwrap();

    assert!(matches!(
        storage.set_status(&mut agent, AgentStatus::Done),
        Err(Error::InvalidAgentTransition { .. })
    ));
    assert_eq!(
        storage.state_agent(agent.id()).unwrap(),
        (AgentStatus::Idle, false)
    );
    storage.set_status(&mut agent, AgentStatus::Working).unwrap();
    storage.set_status(&mut agent, AgentStatus::Waiting).unwrap();
    assert!(matches!(
        storage.acknowledge_run(&mut agent),
        Err(Error::AgentNotDone(_))
    ));
    storage.set_status(&mut agent, AgentStatus::Working).unwrap();
    storage.set_status(&mut agent, AgentStatus::Done).unwrap();
    storage.acknowledge_run(&mut agent).unwrap();
    storage.acknowledge_run(&mut agent).unwrap();
    assert_eq!(
        storage.state_agent(agent.id()).unwrap(),
        (AgentStatus::Done, true)
    );

    storage.set_status(&mut agent, AgentStatus::Working).unwrap();
    assert_eq!(
        storage.state_agent(agent.id()).unwrap(),
        (AgentStatus::Working, false)
    );
    storage.set_status(&mut agent, AgentStatus::Done).unwrap();
    storage.acknowledge_run(&mut agent).unwrap();
    storage.set_status(&mut agent, AgentStatus::Killed).unwrap();
    assert_eq!(
        storage.state_agent(agent.id()).unwrap(),
        (AgentStatus::Killed, false)
    );
    assert!(matches!(
        storage.set_status(&mut agent, AgentStatus::Working),
        Err(Error::InvalidAgentTransition { .. })
    ));
    storage.set_status(&mut agent, AgentStatus::Killed).unwrap();
}

#[test]
fn every_allowed_database_transition_commits_expected_state() {
    for from in STATUSES {
        for to in STATUSES {
            if !from.permits(to) {
                continue;
            }
            let fixture = Fixture::new();
            let storage = fixture.storage();
            let agent = storage.create_agent("pi", "/tmp", None).unwrap();
            let acknowledged = from == AgentStatus::Done;
            Connection::open(fixture.path())
                .unwrap()
                .execute(
                    "UPDATE agents SET status=?2,acked=?3 WHERE id=?1",
                    [agent.id(), from.code(), i64::from(acknowledged)],
                )
                .unwrap();
            let observed = storage.set_status_agent(agent.id(), to).unwrap();
            let expected_ack = acknowledged && from == to;
            assert_eq!(observed, (to, expected_ack), "{from:?} -> {to:?}");
            assert_eq!(storage.state_agent(agent.id()).unwrap(), observed);
        }
    }
}

#[test]
fn every_forbidden_database_transition_writes_nothing() {
    for from in STATUSES {
        for to in STATUSES {
            if from.permits(to) {
                continue;
            }
            let fixture = Fixture::new();
            let storage = fixture.storage();
            let agent = storage.create_agent("pi", "/tmp", None).unwrap();
            let connection = Connection::open(fixture.path()).unwrap();
            connection
                .execute(
                    "UPDATE agents SET status=?2,acked=0 WHERE id=?1",
                    [agent.id(), from.code()],
                )
                .unwrap();
            assert!(matches!(
                storage.set_status_agent(agent.id(), to),
                Err(Error::InvalidAgentTransition { .. })
            ));
            assert_eq!(storage.state_agent(agent.id()).unwrap(), (from, false));
        }
    }
}

#[test]
fn idempotent_status_and_acknowledgment_do_not_execute_updates() {
    let fixture = Fixture::new();
    let storage = fixture.storage();
    let mut agent = storage.create_agent("pi", "/tmp", None).unwrap();
    storage.set_status(&mut agent, AgentStatus::Working).unwrap();
    storage.set_status(&mut agent, AgentStatus::Done).unwrap();
    storage.acknowledge_run(&mut agent).unwrap();
    let connection = Connection::open(fixture.path()).unwrap();
    connection
        .execute_batch(
            "CREATE TRIGGER reject_agent_update BEFORE UPDATE ON agents BEGIN SELECT RAISE(ABORT, 'no update'); END;",
        )
        .unwrap();
    assert_eq!(
        storage.set_status_agent(agent.id(), AgentStatus::Done).unwrap(),
        (AgentStatus::Done, true)
    );
    assert_eq!(
        storage.acknowledge_agent(agent.id()).unwrap(),
        (AgentStatus::Done, true)
    );
}

#[test]
fn failed_update_leaves_database_and_loaded_state_unchanged() {
    let fixture = Fixture::new();
    let storage = fixture.storage();
    let mut agent = storage.create_agent("pi", "/tmp", None).unwrap();
    let connection = Connection::open(fixture.path()).unwrap();
    connection
        .execute_batch(
            "CREATE TRIGGER reject_agent_update BEFORE UPDATE ON agents BEGIN SELECT RAISE(ABORT, 'failure'); END;",
        )
        .unwrap();
    assert!(matches!(
        storage.set_status(&mut agent, AgentStatus::Working),
        Err(Error::Database(_))
    ));
    assert_eq!(agent.snapshot().status, AgentStatus::Idle);
    assert_eq!(
        storage.state_agent(agent.id()).unwrap(),
        (AgentStatus::Idle, false)
    );
}

#[test]
fn strict_and_conditional_acknowledgment_cover_all_statuses() {
    for status in STATUSES {
        let fixture = Fixture::new();
        let storage = fixture.storage();
        let agent = storage.create_agent("pi", "/tmp", None).unwrap();
        Connection::open(fixture.path())
            .unwrap()
            .execute(
                "UPDATE agents SET status=?2,acked=0 WHERE id=?1",
                [agent.id(), status.code()],
            )
            .unwrap();
        if status == AgentStatus::Done {
            assert_eq!(
                storage.acknowledge_agent(agent.id()).unwrap(),
                (status, true)
            );
            assert_eq!(
                storage.acknowledge_agent_if_done(agent.id()).unwrap(),
                (status, true)
            );
        } else {
            assert!(matches!(
                storage.acknowledge_agent(agent.id()),
                Err(Error::AgentNotDone(_))
            ));
            assert_eq!(
                storage.acknowledge_agent_if_done(agent.id()).unwrap(),
                (status, false)
            );
        }
    }
}

#[test]
fn failed_shell_navigation_does_not_acknowledge_done() {
    let fixture = Fixture::new();
    let storage = fixture.storage();
    let mut agent = storage.create_agent("pi", "/tmp", None).unwrap();
    storage.set_status(&mut agent, AgentStatus::Working).unwrap();
    storage.set_status(&mut agent, AgentStatus::Done).unwrap();
    assert!(matches!(
        agent.focus(FocusEvent::Asked(Vec::new())),
        FocusStep::Failed(Error::Navigation(_))
    ));
    assert_eq!(
        storage.state_agent(agent.id()).unwrap(),
        (AgentStatus::Done, false)
    );
}

#[test]
fn batch_sync_updates_all_non_killed_and_rejects_mixed_storage() {
    let fixture = Fixture::new();
    let first = fixture.storage();
    let second = fixture.storage();
    let one = first.create_agent("one", "/one", None).unwrap();
    let two = first.create_agent("two", "/two", None).unwrap();
    let duplicate_one = first.get_agent(one.id()).unwrap();
    let mut killed = first.create_agent("killed", "/killed", None).unwrap();
    second.set_status_agent(one.id(), AgentStatus::Working).unwrap();
    second.set_status_agent(two.id(), AgentStatus::Working).unwrap();
    second.set_status_agent(two.id(), AgentStatus::Waiting).unwrap();
    first.set_status(&mut killed, AgentStatus::Killed).unwrap();
    let one_id = one.id();
    let mut agents = vec![one, two, duplicate_one, killed];
    first.sync_agent(&mut agents).unwrap();
    assert_eq!(agents[0].snapshot().status, AgentStatus::Working);
    assert_eq!(agents[2].snapshot().status, AgentStatus::Working);
    assert_eq!(agents[1].snapshot().status, AgentStatus::Waiting);
    assert_eq!(agents[3].snapshot().status, AgentStatus::Killed);

    let mut foreign = vec![second.get_agent(one_id).unwrap()];
    assert!(matches!(
        first.sync_agent(&mut foreign),
        Err(Error::AgentWrongStorage(id)) if id == one_id
    ));
}

#[test]
fn new_work_clears_an_acknowledgment_in_either_order() {
    for acknowledged_first in [true, false] {
        let fixture = Fixture::new();
        let storage = fixture.storage();
        let other = fixture.storage();
        let mut agent = storage.create_agent("pi", "/tmp", None).unwrap();
        storage.set_status(&mut agent, AgentStatus::Working).unwrap();
        storage.set_status(&mut agent, AgentStatus::Done).unwrap();
        let id = agent.id();
        if acknowledged_first {
            storage.acknowledge_agent_if_done(id).unwrap();
            other.set_status_agent(id, AgentStatus::Working).unwrap();
        } else {
            other.set_status_agent(id, AgentStatus::Working).unwrap();
            storage.acknowledge_agent_if_done(id).unwrap();
        }
        assert_eq!(
            storage.state_agent(id).unwrap(),
            (AgentStatus::Working, false)
        );
    }
}

#[test]
fn corrupt_agent_columns_and_missing_children_are_rejected() {
    for mutation in [
        "UPDATE agents SET status=0",
        "UPDATE agents SET acked=2",
        "UPDATE agents SET status=2,acked=1",
        "UPDATE agents SET shell=0,tmux=0",
        "UPDATE agents SET started_at=-1",
        "UPDATE agents SET kind='   '",
    ] {
        let fixture = Fixture::new();
        let storage = fixture.storage();
        let id = storage.create_agent("pi", "/tmp", None).unwrap().id();
        let connection = Connection::open(fixture.path()).unwrap();
        connection.execute_batch("PRAGMA ignore_check_constraints=ON").unwrap();
        connection.execute(mutation, []).unwrap();
        assert!(
            matches!(storage.get_agent(id), Err(Error::CorruptData(_))),
            "{mutation}"
        );
    }

    let fixture = Fixture::new();
    let storage = fixture.storage();
    let agent = storage.create_agent("pi", "/tmp", None).unwrap();
    Connection::open(fixture.path())
        .unwrap()
        .execute("DELETE FROM shells WHERE id=?1", [agent.orchestrator().id()])
        .unwrap();
    assert!(matches!(
        storage.get_agent(agent.id()),
        Err(Error::CorruptData(_))
    ));

    let fixture = Fixture::new();
    let storage = fixture.storage();
    storage.create_agent("pi", "/tmp", None).unwrap();
    let connection = Connection::open(fixture.path()).unwrap();
    connection.execute_batch("PRAGMA ignore_check_constraints=ON").unwrap();
    connection.execute("UPDATE agents SET id=0", []).unwrap();
    assert!(matches!(storage.all_agent(), Err(Error::CorruptData(_))));
}

#[test]
fn snapshot_elapsed_is_storage_free() {
    let fixture = Fixture::new();
    let storage = fixture.storage();
    let agent = storage.create_agent("pi", "/tmp", None).unwrap();
    let snapshot = agent.snapshot();
    assert!(snapshot.elapsed(snapshot.started_at).is_zero());
    assert_eq!(snapshot.kind, "pi");
    assert_eq!(snapshot.id, agent.id());
}

#[test]
fn shell_navigation_remains_unsupported() {
    let fixture = Fixture::new();
    let process = fixture.storage().create_process("shell", "/work", None).unwrap();
    let step = process.orchestrator().navigate(&[]);
    assert!(matches!(
        step,
        NavigationStep::Failed(NavigationError::Unavailable(_))
    ));
}

#[test]
fn lifecycle_is_persisted_and_completion_is_immutable() {
    let fixture = Fixture::new();
    let storage = fixture.storage();
    let mut process = storage.start_process("build").unwrap();
    assert!(process.id() > 0);
    let destination = process.snapshot().orchestrator.cwd().to_string();

    storage.finish(&mut process, 7).unwrap();
    let finished = process.snapshot();
    assert_eq!(finished.exit_status(), Some(7));
    assert_eq!(finished.outcome(), "failed/7");
    assert_eq!(finished.orchestrator.cwd(), destination);
    assert!(matches!(
        storage.finish(&mut process, 7),
        Err(Error::AlreadyFinished(_))
    ));

    storage.acknowledge(&mut process).unwrap();
    storage.acknowledge(&mut process).unwrap();
    assert!(process.snapshot().acknowledged());
    assert!(matches!(
        storage.finish(&mut process, 0),
        Err(Error::AlreadyAcknowledged(_))
    ));
    assert_eq!(process.snapshot().exit_status(), Some(7));
}

#[test]
fn running_cannot_be_acknowledged_and_failed_write_does_not_change_cache() {
    let fixture = Fixture::new();
    let storage = fixture.storage();
    let mut process = storage.start_process("test").unwrap();
    assert!(matches!(
        storage.acknowledge(&mut process),
        Err(Error::StillRunning(_))
    ));
    assert_eq!(process.snapshot().state, ProcessState::Running);
}

#[test]
fn observations_are_monotonic_and_reject_changed_completion() {
    let fixture = Fixture::new();
    let storage = fixture.storage();
    let mut process = storage.start_process("test").unwrap();
    let finished = ProcessState::Finished {
        finished_at: at(10_000),
        exit_status: 2,
    };
    process.observe(finished).unwrap();
    process.observe(ProcessState::Running).unwrap();
    assert_eq!(process.snapshot().state, finished);
    let changed = ProcessState::Acknowledged {
        finished_at: at(10_000),
        exit_status: 3,
    };
    assert!(matches!(
        process.observe(changed),
        Err(Error::CorruptData(_))
    ));
    assert_eq!(process.snapshot().state, finished);
}

#[test]
fn snapshot_elapsed_and_outcome_need_no_refresh() {
    let fixture = Fixture::new();
    let storage = fixture.storage();
    let process = storage.start_process("clock").unwrap();
    let snapshot = process.snapshot();
    assert_eq!(snapshot.outcome(), "running");
    assert!(snapshot.elapsed(snapshot.started_at).is_zero());
}

#[test]
fn missing_database_reads_empty_and_lookup_is_not_found() {
    let fixture = Fixture::new();
    let storage = fixture.readonly();
    assert!(storage.all_process().unwrap().is_empty());
    assert_eq!(storage.latest_process().unwrap(), None);
    assert!(matches!(storage.get_process(1), Err(Error::NotFound(1))));
    assert!(!fixture.path().exists());
}

#[test]
fn ids_ordering_filters_and_ranges_are_distinct() {
    let fixture = Fixture::new();
    let storage = fixture.storage();
    let first = storage.start_process("one").unwrap().id();
    let mut second = storage.start_process("two").unwrap();
    let second_id = second.id();
    assert!(second_id > first);
    storage.finish(&mut second, 0).unwrap();

    assert_eq!(
        storage.running_process().unwrap().iter().map(|p| p.id()).collect::<Vec<_>>(),
        vec![first]
    );
    assert_eq!(storage.unacked_process().unwrap().len(), 2);
    assert_eq!(storage.latest_process().unwrap(), Some(second_id));
    assert_eq!(
        storage
            .range_process(0, second_id, 20)
            .unwrap()
            .iter()
            .map(|p| p.id())
            .collect::<Vec<_>>(),
        vec![first, second_id]
    );
    assert!(matches!(
        storage.range_process(0, second_id, 0),
        Err(Error::Invalid(_))
    ));
}

#[test]
fn schema_has_new_lifecycle_and_partial_indexes() {
    let fixture = Fixture::new();
    fixture.storage().start_process("schema").unwrap();
    let connection = Connection::open(fixture.path()).unwrap();
    let columns: Vec<String> = connection
        .prepare("PRAGMA table_info(processes)")
        .unwrap()
        .query_map([], |row| row.get(1))
        .unwrap()
        .map(Result::unwrap)
        .collect();
    assert_eq!(
        columns,
        vec![
            "id",
            "label",
            "started_at",
            "running",
            "finished",
            "acked",
            "finished_at",
            "exit_status",
            "shell",
            "tmux",
            "orchestrator_id"
        ]
    );
    let indexes: Vec<String> = connection.prepare("SELECT name FROM sqlite_master WHERE type='index' AND tbl_name='processes' AND sql IS NOT NULL ORDER BY name").unwrap().query_map([], |row| row.get(0)).unwrap().map(Result::unwrap).collect();
    assert_eq!(
        indexes,
        vec![
            "processes_collectible",
            "processes_running",
            "processes_shell_orchestrator",
            "processes_started",
            "processes_tmux_orchestrator",
            "processes_unacked"
        ]
    );
}

#[test]
fn deleting_tracked_entities_removes_their_orchestrators() {
    let fixture = Fixture::new();
    let storage = fixture.storage();
    let process = storage.start_process("delete process").unwrap();
    let agent = storage.register_agent("pi").unwrap();

    storage.delete_process(process.id()).unwrap();
    storage.delete_agent(agent.id()).unwrap();

    assert!(matches!(
        storage.get_process(process.id()),
        Err(Error::NotFound(id)) if id == process.id()
    ));
    assert!(matches!(
        storage.get_agent(agent.id()),
        Err(Error::AgentNotFound(id)) if id == agent.id()
    ));
    let connection = Connection::open(fixture.path()).unwrap();
    let orchestrators: i64 = connection
        .query_row(
            "SELECT (SELECT count(*) FROM shells) + (SELECT count(*) FROM tmux)",
            [],
            |row| row.get(0),
        )
        .unwrap();
    assert_eq!(orchestrators, 0);
}

#[test]
fn stale_collection_uses_thresholds_and_preserves_nonterminal_rows() {
    let fixture = Fixture::new();
    fixture.storage().start_process("still running").unwrap();
    let mut connection = Connection::open(fixture.path()).unwrap();
    let transaction = connection.transaction().unwrap();
    for (id, cwd) in [
        (10_i64, "/old-process"),
        (11, "/new-process"),
        (12, "/old-agent"),
        (13, "/new-agent"),
        (14, "/protected"),
    ] {
        transaction
            .execute("INSERT INTO shells(id,cwd) VALUES(?1,?2)", (id, cwd))
            .unwrap();
    }
    for index in 0..1_000_i64 {
        let orchestrator = if index < 500 { 10 } else { 11 };
        transaction.execute(
            "INSERT INTO processes(label,started_at,running,finished,acked,finished_at,exit_status,shell,tmux,orchestrator_id)
             VALUES('old process',?1,0,0,1,?1,0,1,0,?2)",
            [index, orchestrator],
        ).unwrap();
        let orchestrator = if index < 500 { 12 } else { 13 };
        transaction
            .execute(
                "INSERT INTO agents(kind,started_at,status,acked,shell,tmux,orchestrator_id)
             VALUES('pi',?1,5,0,1,0,?2)",
                [index, orchestrator],
            )
            .unwrap();
    }
    transaction.execute(
        "INSERT INTO processes(label,started_at,running,finished,acked,finished_at,exit_status,shell,tmux,orchestrator_id)
         VALUES('unacknowledged',0,0,1,0,1,0,1,0,14)",
        [],
    ).unwrap();
    transaction
        .execute(
            "INSERT INTO agents(kind,started_at,status,acked,shell,tmux,orchestrator_id)
         VALUES('pi',0,4,1,1,0,14)",
            [],
        )
        .unwrap();
    transaction.commit().unwrap();
    drop(connection);

    collect_stale(fixture.path()).unwrap();
    let connection = Connection::open(fixture.path()).unwrap();
    assert_eq!(count_where(&connection, "processes", "acked=1"), 1_000);
    assert_eq!(count_where(&connection, "agents", "status=5"), 1_000);
    drop(connection);

    let connection = Connection::open(fixture.path()).unwrap();
    connection.execute(
        "INSERT INTO processes(label,started_at,running,finished,acked,finished_at,exit_status,shell,tmux,orchestrator_id)
         VALUES('new process',1000,0,0,1,1000,0,1,0,11)",
        [],
    ).unwrap();
    connection
        .execute(
            "INSERT INTO agents(kind,started_at,status,acked,shell,tmux,orchestrator_id)
         VALUES('pi',1000,5,0,1,0,13)",
            [],
        )
        .unwrap();
    drop(connection);

    collect_stale(fixture.path()).unwrap();
    let connection = Connection::open(fixture.path()).unwrap();
    assert_eq!(count_where(&connection, "processes", "acked=1"), 501);
    assert_eq!(count_where(&connection, "agents", "status=5"), 501);
    assert_eq!(count_where(&connection, "processes", "finished=1"), 1);
    assert_eq!(
        count_where(&connection, "agents", "status=4 AND acked=1"),
        1
    );
    assert_eq!(count_where(&connection, "processes", "running=1"), 1);
    assert_eq!(
        connection
            .query_row(
                "SELECT min(finished_at) FROM processes WHERE acked=1",
                [],
                |row| row.get::<_, i64>(0)
            )
            .unwrap(),
        500
    );
    assert_eq!(
        connection
            .query_row(
                "SELECT min(started_at) FROM agents WHERE status=5",
                [],
                |row| row.get::<_, i64>(0)
            )
            .unwrap(),
        500
    );
    assert_eq!(count_where(&connection, "shells", "id IN (10,12)"), 0);
    assert_eq!(count_where(&connection, "shells", "id IN (11,13,14)"), 3);
}

#[test]
fn stale_collection_skips_a_busy_database_and_missing_database() {
    let fixture = Fixture::new();
    fixture.storage().start_process("initialize").unwrap();
    let mut blocker = Connection::open(fixture.path()).unwrap();
    blocker
        .execute_batch(
            "WITH RECURSIVE sequence(value) AS (
                SELECT 1 UNION ALL SELECT value+1 FROM sequence WHERE value<1001
             )
             INSERT INTO processes(label,started_at,running,finished,acked,finished_at,exit_status,shell,tmux,orchestrator_id)
             SELECT 'collectible',value,0,0,1,value,0,1,0,1 FROM sequence;",
        )
        .unwrap();
    let transaction = blocker.transaction().unwrap();
    transaction
        .execute("INSERT INTO shells(cwd) VALUES('/lock')", [])
        .unwrap();
    collect_stale(fixture.path()).unwrap();
    transaction.rollback().unwrap();

    let missing = fixture.path().with_file_name("missing.db");
    collect_stale(&missing).unwrap();
    assert!(!missing.exists());
}

#[test]
fn delete_reports_missing_and_read_only_entities() {
    let fixture = Fixture::new();
    let storage = fixture.storage();
    let id = storage.start_process("readonly delete").unwrap().id();
    assert!(matches!(
        storage.delete_process(id + 1),
        Err(Error::NotFound(missing)) if missing == id + 1
    ));
    assert!(matches!(
        storage.delete_agent(id),
        Err(Error::AgentNotFound(missing)) if missing == id
    ));
    assert!(matches!(
        fixture.readonly().delete_process(id),
        Err(Error::ReadOnly)
    ));
    assert!(storage.get_process(id).is_ok());
}

#[test]
fn read_only_is_a_mutation_backstop() {
    let fixture = Fixture::new();
    let storage = fixture.storage();
    let id = storage.start_process("readonly").unwrap().id();
    let readonly = fixture.readonly();
    let mut process = readonly.get_process(id).unwrap();
    assert!(matches!(
        readonly.finish(&mut process, 0),
        Err(Error::ReadOnly)
    ));
    assert_eq!(process.snapshot().state, ProcessState::Running);
}

#[test]
fn synchronization_rejects_mixed_storage_instances() {
    let fixture = Fixture::new();
    let first = fixture.storage();
    let id = first.start_process("mixed").unwrap().id();
    let second = fixture.storage();
    let entity = second.get_process(id).unwrap();
    assert!(
        matches!(first.sync_process(&mut vec![entity]), Err(Error::WrongStorage(value)) if value == id)
    );
}

#[test]
fn external_transitions_are_observed_monotonically() {
    let fixture = Fixture::new();
    let first = fixture.storage();
    let id = first.start_process("external").unwrap().id();
    let second = fixture.storage();
    let mut observer = first.get_process(id).unwrap();
    let mut writer = second.get_process(id).unwrap();
    second.finish(&mut writer, 9).unwrap();
    assert!(matches!(
        first.state_of(&mut observer).unwrap(),
        ProcessState::Finished { exit_status: 9, .. }
    ));
    second.acknowledge(&mut writer).unwrap();
    assert!(matches!(
        first.state_of(&mut observer).unwrap(),
        ProcessState::Acknowledged { exit_status: 9, .. }
    ));
}

#[test]
fn second_completion_is_refused() {
    let fixture = Fixture::new();
    let first = fixture.storage();
    let id = first.start_process("race").unwrap().id();
    let second = fixture.storage();
    let mut winner = first.get_process(id).unwrap();
    let mut loser = second.get_process(id).unwrap();
    first.finish(&mut winner, 3).unwrap();
    assert!(matches!(
        second.finish(&mut loser, 4),
        Err(Error::AlreadyFinished(_))
    ));
    assert_eq!(second.get_process(id).unwrap().snapshot().exit_status(), Some(3));
}

#[test]
fn fresh_schema_is_version_four_with_agent_indexes() {
    let fixture = Fixture::new();
    fixture.storage().start_process("schema").unwrap();
    let connection = Connection::open(fixture.path()).unwrap();
    let version: i64 = connection
        .pragma_query_value(None, "user_version", |row| row.get(0))
        .unwrap();
    assert_eq!(version, 4);
    let indexes: Vec<String> = connection
        .prepare("SELECT name FROM sqlite_master WHERE type='index' AND tbl_name='agents' AND sql IS NOT NULL ORDER BY name")
        .unwrap()
        .query_map([], |row| row.get(0))
        .unwrap()
        .map(Result::unwrap)
        .collect();
    assert_eq!(
        indexes,
        vec![
            "agents_active",
            "agents_collectible",
            "agents_shell_orchestrator",
            "agents_started",
            "agents_tmux_orchestrator",
            "agents_unkilled"
        ]
    );
}

#[test]
fn writable_version_two_migrates_without_rewriting_existing_values() {
    let fixture = Fixture::new();
    create_version_two(fixture.path());
    let before = version_two_values(fixture.path());
    let storage = Store::open(fixture.path(), fixture.handle()).unwrap();
    assert!(storage.all_agent().unwrap().is_empty());
    let connection = Connection::open(fixture.path()).unwrap();
    assert_eq!(user_version(&connection), 3);
    assert_eq!(version_two_values(fixture.path()), before);
}

#[test]
fn background_collection_adds_indexes_to_an_over_threshold_version_three_database() {
    let fixture = Fixture::new();
    create_version_three(fixture.path());
    Connection::open(fixture.path())
        .unwrap()
        .execute_batch(
            "WITH RECURSIVE sequence(value) AS (
                SELECT 1 UNION ALL SELECT value+1 FROM sequence WHERE value<1001
             )
             INSERT INTO processes(label,started_at,running,finished,acked,finished_at,exit_status,shell,tmux,orchestrator_id)
             SELECT 'collectible',value,0,0,1,value,0,1,0,7 FROM sequence;",
        )
        .unwrap();

    collect_stale(fixture.path()).unwrap();

    let connection = Connection::open(fixture.path()).unwrap();
    assert_eq!(user_version(&connection), 4);
    assert_eq!(count_where(&connection, "processes", "id=9"), 1);
    assert_eq!(
        count_where(
            &connection,
            "sqlite_master",
            "type='index' AND name IN (
                'processes_collectible','processes_shell_orchestrator','processes_tmux_orchestrator',
                'agents_collectible','agents_shell_orchestrator','agents_tmux_orchestrator'
            )"
        ),
        6
    );
}

#[test]
fn nothing_is_collected_from_a_database_without_agents() {
    let fixture = Fixture::new();
    create_version_two(fixture.path());
    let before = version_two_values(fixture.path());
    collect_stale(fixture.path()).unwrap();
    assert_eq!(version_two_values(fixture.path()), before);
    assert_eq!(user_version(&Connection::open(fixture.path()).unwrap()), 2);
}

#[test]
fn failed_migration_rolls_back_objects_and_version() {
    let fixture = Fixture::new();
    create_version_two(fixture.path());
    Connection::open(fixture.path())
        .unwrap()
        .execute_batch(
            "CREATE TABLE migration_conflict(value INTEGER);\
             CREATE INDEX agents_unkilled ON migration_conflict(value);",
        )
        .unwrap();
    assert!(matches!(
        Store::open(fixture.path(), fixture.handle()),
        Err(Error::Database(_))
    ));
    let connection = Connection::open(fixture.path()).unwrap();
    assert_eq!(user_version(&connection), 2);
    assert_eq!(
        connection
            .query_row(
                "SELECT count(*) FROM sqlite_master WHERE type='table' AND name='agents'",
                [],
                |row| row.get::<_, i64>(0)
            )
            .unwrap(),
        0
    );
    assert_eq!(
        connection
            .query_row(
                "SELECT count(*) FROM sqlite_master WHERE type='index' AND name='agents_started'",
                [],
                |row| row.get::<_, i64>(0)
            )
            .unwrap(),
        0
    );
}

#[test]
fn a_second_writable_opening_finds_the_migration_done() {
    let fixture = Fixture::new();
    create_version_two(fixture.path());
    for _ in 0..4 {
        let store = Store::open(fixture.path(), fixture.handle()).unwrap();
        assert_eq!(store.all_agent().unwrap().len(), 0);
    }
    let connection = Connection::open(fixture.path()).unwrap();
    assert_eq!(user_version(&connection), 3);
    assert_eq!(
        count_where(&connection, "sqlite_master", "type='table' AND name='agents'"),
        1
    );
}

#[test]
fn read_only_version_two_requires_migration_and_keeps_its_version() {
    let fixture = Fixture::new();
    create_version_two(fixture.path());
    let before = version_two_values(fixture.path());
    let refused = Store::open_read_only(fixture.path(), fixture.handle());
    assert!(matches!(refused, Err(Error::Incompatible(_))));
    assert_eq!(version_two_values(fixture.path()), before);
    assert_eq!(user_version(&Connection::open(fixture.path()).unwrap()), 2);
}

#[test]
fn ordinary_and_read_only_version_three_access_does_not_add_collection_indexes() {
    let fixture = Fixture::new();
    create_version_three(fixture.path());
    let before = version_two_values(fixture.path());

    Store::open(fixture.path(), fixture.handle()).unwrap();
    Store::open_read_only(fixture.path(), fixture.handle()).unwrap();

    let connection = Connection::open(fixture.path()).unwrap();
    assert_eq!(version_two_values(fixture.path()), before);
    assert_eq!(user_version(&connection), 3);
    assert_eq!(
        count_where(
            &connection,
            "sqlite_master",
            "type='index' AND name IN ('processes_collectible','agents_collectible')"
        ),
        0
    );
}

#[test]
fn version_one_and_unknown_versions_remain_incompatible() {
    for version in [1, 5, 99] {
        let fixture = Fixture::new();
        let connection = Connection::open(fixture.path()).unwrap();
        connection.pragma_update(None, "user_version", version).unwrap();
        drop(connection);
        assert!(matches!(
            Store::open(fixture.path(), fixture.handle()),
            Err(Error::Incompatible(_))
        ));
    }
}

#[test]
fn incompatible_database_is_not_replaced() {
    let fixture = Fixture::new();
    let connection = Connection::open(fixture.path()).unwrap();
    connection.execute("CREATE TABLE foreign_data(value TEXT)", []).unwrap();
    drop(connection);
    assert!(matches!(
        Store::open(fixture.path(), fixture.handle()),
        Err(Error::Incompatible(_))
    ));
    let connection = Connection::open(fixture.path()).unwrap();
    assert_eq!(
        connection
            .query_row(
                "SELECT count(*) FROM sqlite_master WHERE name='foreign_data'",
                [],
                |row| row.get::<_, i64>(0)
            )
            .unwrap(),
        1
    );
}

fn create_version_three(path: &Path) {
    create_version_two(path);
    Connection::open(path)
        .unwrap()
        .execute_batch(
            r#"
CREATE TABLE agents (
    id INTEGER PRIMARY KEY AUTOINCREMENT,
    kind TEXT NOT NULL CHECK (length(trim(kind)) > 0),
    started_at INTEGER NOT NULL,
    status INTEGER NOT NULL CHECK (status BETWEEN 1 AND 5),
    acked INTEGER NOT NULL DEFAULT 0 CHECK (acked IN (0, 1)),
    shell INTEGER NOT NULL CHECK (shell IN (0, 1)),
    tmux INTEGER NOT NULL CHECK (tmux IN (0, 1)),
    orchestrator_id INTEGER NOT NULL,
    CHECK (shell + tmux = 1),
    CHECK (acked = 0 OR status = 4)
);
CREATE INDEX agents_started ON agents(started_at DESC, id DESC);
CREATE INDEX agents_unkilled ON agents(started_at DESC, id DESC) WHERE status != 5;
CREATE INDEX agents_active ON agents(started_at DESC, id DESC) WHERE acked = 0 AND status != 5;
PRAGMA user_version=3;
"#,
        )
        .unwrap();
}

fn create_version_two(path: &Path) {
    let connection = Connection::open(path).unwrap();
    connection
        .execute_batch(
            r#"
CREATE TABLE shells (id INTEGER PRIMARY KEY AUTOINCREMENT, cwd TEXT NOT NULL);
CREATE TABLE tmux (id INTEGER PRIMARY KEY AUTOINCREMENT, cwd TEXT NOT NULL, pane TEXT NOT NULL);
CREATE TABLE processes (
    id INTEGER PRIMARY KEY AUTOINCREMENT,
    label TEXT NOT NULL,
    started_at INTEGER NOT NULL,
    running INTEGER NOT NULL DEFAULT 1 CHECK (running IN (0, 1)),
    finished INTEGER NOT NULL DEFAULT 0 CHECK (finished IN (0, 1)),
    acked INTEGER NOT NULL DEFAULT 0 CHECK (acked IN (0, 1)),
    finished_at INTEGER,
    exit_status INTEGER CHECK (exit_status BETWEEN 0 AND 255),
    shell INTEGER NOT NULL CHECK (shell IN (0, 1)),
    tmux INTEGER NOT NULL CHECK (tmux IN (0, 1)),
    orchestrator_id INTEGER NOT NULL,
    CHECK (running + finished + acked = 1),
    CHECK (shell + tmux = 1),
    CHECK ((running = 1 AND finished_at IS NULL AND exit_status IS NULL)
        OR (running = 0 AND finished_at IS NOT NULL AND exit_status IS NOT NULL))
);
CREATE INDEX processes_started ON processes(started_at DESC, id DESC);
CREATE INDEX processes_unacked ON processes(started_at DESC, id DESC) WHERE acked = 0;
CREATE INDEX processes_running ON processes(started_at DESC, id DESC) WHERE running = 1;
INSERT INTO shells(id,cwd) VALUES(7,'/shell cwd');
INSERT INTO tmux(id,cwd,pane) VALUES(8,'/tmux cwd','%8');
INSERT INTO processes(id,label,started_at,running,finished,acked,finished_at,exit_status,shell,tmux,orchestrator_id)
VALUES(9,'preserve me',123456,0,1,0,123999,17,1,0,7);
PRAGMA user_version=2;
"#,
        )
        .unwrap();
}

type ProcessValues = (
    i64,
    String,
    i64,
    i64,
    i64,
    i64,
    Option<i64>,
    Option<i64>,
    i64,
    i64,
    i64,
);
type VersionTwoValues = (
    Vec<(i64, String)>,
    Vec<(i64, String, String)>,
    Vec<ProcessValues>,
);

fn version_two_values(path: &Path) -> VersionTwoValues {
    let connection = Connection::open(path).unwrap();
    let shells = connection
        .prepare("SELECT id,cwd FROM shells ORDER BY id")
        .unwrap()
        .query_map([], |row| Ok((row.get(0)?, row.get(1)?)))
        .unwrap()
        .map(Result::unwrap)
        .collect();
    let tmux = connection
        .prepare("SELECT id,cwd,pane FROM tmux ORDER BY id")
        .unwrap()
        .query_map([], |row| Ok((row.get(0)?, row.get(1)?, row.get(2)?)))
        .unwrap()
        .map(Result::unwrap)
        .collect();
    let processes = connection
        .prepare("SELECT id,label,started_at,running,finished,acked,finished_at,exit_status,shell,tmux,orchestrator_id FROM processes ORDER BY id")
        .unwrap()
        .query_map([], |row| {
            Ok((
                row.get(0)?, row.get(1)?, row.get(2)?, row.get(3)?, row.get(4)?,
                row.get(5)?, row.get(6)?, row.get(7)?, row.get(8)?, row.get(9)?, row.get(10)?,
            ))
        })
        .unwrap()
        .map(Result::unwrap)
        .collect();
    (shells, tmux, processes)
}

#[test]
fn started_and_registered_items_read_back_as_they_were_handed_out() {
    let fixture = Fixture::new();
    let storage = fixture.storage();
    let process = storage.create_process("cargo test", "/a\tb", Some("%3")).unwrap();
    let found = storage.get_process(process.id()).unwrap();
    assert_eq!(found.label(), "cargo test");
    assert_eq!(found.started_at(), process.started_at());
    assert_eq!(found.snapshot().state, ProcessState::Running);
    assert_eq!(found.orchestrator().cwd(), "/a\tb");
    assert_eq!(found.orchestrator().describe(), "tmux %3");
    let agent = storage.create_agent("pi", "/b", None).unwrap();
    let found = storage.get_agent(agent.id()).unwrap();
    assert_eq!(found.kind, "pi");
    assert_eq!(found.started_at(), agent.started_at());
    assert_eq!(found.orchestrator().describe(), "shell");
}

#[test]
fn removed_numbers_are_not_given_out_again() {
    let fixture = Fixture::new();
    let storage = fixture.storage();
    let first = storage.start_process("one").unwrap().id();
    storage.delete_process(first).unwrap();
    assert!(storage.start_process("two").unwrap().id() > first);
}

#[test]
fn a_shared_host_stays_until_its_last_item_is_removed() {
    let fixture = Fixture::new();
    let storage = fixture.storage();
    let process = storage.start_process("one").unwrap();
    let agent = storage.register_agent("pi").unwrap();
    let connection = Connection::open(fixture.path()).unwrap();
    connection
        .execute(
            "UPDATE agents SET orchestrator_id=?1",
            [process.orchestrator().id()],
        )
        .unwrap();
    storage.delete_process(process.id()).unwrap();
    assert_eq!(
        count_where(&connection, "shells", &format!("id={}", process.orchestrator().id())),
        1
    );
    storage.delete_agent(agent.id()).unwrap();
    assert_eq!(
        count_where(&connection, "shells", &format!("id={}", process.orchestrator().id())),
        0
    );
}

#[test]
fn many_states_are_read_in_chunks() {
    let fixture = Fixture::new();
    let storage = fixture.storage();
    storage.start_process("first").unwrap();
    Connection::open(fixture.path())
        .unwrap()
        .execute_batch(
            "WITH RECURSIVE sequence(value) AS (
                SELECT 1 UNION ALL SELECT value+1 FROM sequence WHERE value<1000
             )
             INSERT INTO processes(label,started_at,running,finished,acked,shell,tmux,orchestrator_id)
             SELECT 'running',value,1,0,0,1,0,1 FROM sequence;",
        )
        .unwrap();
    let mut all = storage.running_process().unwrap();
    assert_eq!(all.len(), 1_001);
    let asked: Vec<i64> = all.iter().map(|process| process.id()).collect();
    let chunks = query::state_chunks(&asked);
    assert_eq!(chunks.iter().map(|chunk| chunk.len()).collect::<Vec<_>>(), vec![900, 101]);
    storage.sync_process(&mut all).unwrap();
    storage.delete_process(5).unwrap();
    assert!(matches!(storage.sync_process(&mut all), Err(Error::NotFound(5))));
}

#[test]
fn a_command_that_ended_before_it_started_is_rejected() {
    let fixture = Fixture::new();
    let storage = fixture.storage();
    let mut process = storage.start_process("clock").unwrap();
    storage.finish(&mut process, 0).unwrap();
    let connection = Connection::open(fixture.path()).unwrap();
    connection.execute("UPDATE processes SET finished_at=1", []).unwrap();
    match storage.get_process(process.id()) {
        Err(error) => assert_eq!(
            error.message(),
            "corrupt data: process 1 finished before it started"
        ),
        Ok(_) => panic!("the row was accepted"),
    }
}

#[test]
fn kinds_that_the_table_refuses_leave_nothing_behind() {
    let fixture = Fixture::new();
    let storage = fixture.storage();
    for kind in ["   ", "\0pi", "  \0pi"] {
        let job = Job::CreateAgent {
            kind: kind.to_string(),
            cwd: "/tmp".to_string(),
            pane: None,
        };
        assert!(matches!(storage.write(job), Err(Error::Database(_))), "{kind:?}");
    }
    for kind in [" pi", "p\0i", "\t"] {
        let job = Job::CreateAgent {
            kind: kind.to_string(),
            cwd: "/tmp".to_string(),
            pane: None,
        };
        assert!(storage.write(job).is_ok(), "{kind:?}");
    }
    let connection = Connection::open(fixture.path()).unwrap();
    assert_eq!(count(&connection, "agents"), 3);
    assert_eq!(count(&connection, "shells"), 3);
}

#[test]
fn equally_old_items_are_collected_by_number() {
    let fixture = Fixture::new();
    fixture.storage().start_process("initialize").unwrap();
    let connection = Connection::open(fixture.path()).unwrap();
    connection
        .execute_batch(
            "WITH RECURSIVE sequence(value) AS (
                SELECT 1 UNION ALL SELECT value+1 FROM sequence WHERE value<1001
             )
             INSERT INTO processes(id,label,started_at,running,finished,acked,finished_at,exit_status,shell,tmux,orchestrator_id)
             SELECT value+10,'collectible',0,0,0,1,CASE WHEN value=1001 THEN 4 ELSE 5 END,0,1,0,1 FROM sequence;
             WITH RECURSIVE sequence(value) AS (
                SELECT 1 UNION ALL SELECT value+1 FROM sequence WHERE value<1000
             )
             INSERT INTO agents(kind,started_at,status,acked,shell,tmux,orchestrator_id)
             SELECT 'pi',value,5,0,1,0,1 FROM sequence;",
        )
        .unwrap();
    collect_stale(fixture.path()).unwrap();
    assert_eq!(count_where(&connection, "processes", "acked=1"), 501);
    assert_eq!(count_where(&connection, "processes", "id=1011"), 0);
    assert_eq!(count_where(&connection, "processes", "id BETWEEN 11 AND 509"), 0);
    assert_eq!(count_where(&connection, "processes", "id BETWEEN 510 AND 1010"), 501);
    assert_eq!(count_where(&connection, "processes", "running=1"), 1);
    assert_eq!(count(&connection, "agents"), 1000);
    assert_eq!(count(&connection, "shells"), 1);
}
