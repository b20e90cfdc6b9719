//! The data of the panel, driven against a real database.

#![allow(dead_code)]

use std::cell::{Cell, RefCell};
use std::path::{Path, PathBuf};
use std::time::{Duration, SystemTime, UNIX_EPOCH};

use rusqlite::{params_from_iter, Connection, OpenFlags, Row, TransactionBehavior};

use worklight::agent::{AgentRun, AgentStatus};
use worklight::error::{map_error, Error, Failure, FailureCode};
use worklight::orchestrator::Environment;
use worklight::process::{ProcessRun, ProcessState};
use worklight::query::{self, AgentQuery, AgentStatusRow, Fetch, ProcessQuery, ProcessStateRow};
use worklight::rows::{AgentRow, AgentStateRow, HostRow, ProcessRow, StateRow};
use worklight::schema::{self, Collection, SchemaChange};
use worklight::storage::{Access, Job, Storage};
use worklight::time::Timestamp;
use worklight::transaction::{Action, Answer, Outcome, Statement, Transaction, Value};
use ratatui::layout::{Constraint, Layout};
use ratatui::widgets::{Block, Borders, Paragraph, Table};
use worklight::focus::{FocusEvent, FocusStep};
use worklight::panel::{PanelData, PanelSnapshot, TrackedId, TrackedSnapshot};
use worklight::refresh::{
    LoadEvent, LoadStep, Marks, SyncEvent, SyncStep, TargetEvent, TargetStep,
};
use worklight::screen::{self, Panel, Room};
use worklight::worker::{self, PanelEvent, PanelRequest, Work, Worker};

/// A directory for one database, and the handles that were opened on it.
struct Fixture {
    _directory: tempfile::TempDir,
    path: PathBuf,
    opened: Cell<u64>,
}

impl Fixture {
    fn new() -> Self {
        let directory = tempfile::tempdir().unwrap();
        let path = directory.path().join("worklight.db");
        Fixture { _directory: directory, path, opened: Cell::new(0) }
    }

    fn path(&self) -> &Path {
        &self.path
    }

    fn handle(&self) -> u64 {
        self.opened.set(self.opened.get() + 1);
        self.opened.get()
    }

    fn storage(&self) -> Store {
        Store::open(&self.path, self.handle()).unwrap()
    }

    fn readonly(&self) -> Store {
        Store::open_read_only(&self.path, self.handle()).unwrap()
    }
}

fn now() -> Timestamp {
    let passed = SystemTime::now().duration_since(UNIX_EPOCH).unwrap();
    Timestamp { nanos: passed.as_nanos() as i128 }
}

fn failure(error: rusqlite::Error) -> Failure {
    let detail = error.to_string();
    match error {
        rusqlite::Error::SqliteFailure(cause, message) => Failure {
            code: match cause.code {
                rusqlite::ErrorCode::DatabaseBusy => FailureCode::Busy,
                rusqlite::ErrorCode::DatabaseLocked => FailureCode::Locked,
                rusqlite::ErrorCode::NotADatabase => FailureCode::NotADatabase,
                rusqlite::ErrorCode::DatabaseCorrupt => FailureCode::Corrupt,
                rusqlite::ErrorCode::ReadOnly => FailureCode::ReadOnly,
                _ => FailureCode::Other,
            },
            detail: message.unwrap_or(detail),
        },
        _ => Failure { code: FailureCode::Other, detail },
    }
}

fn failed(error: rusqlite::Error) -> Error {
    map_error(failure(error))
}

fn column<T: rusqlite::types::FromSql>(row: &Row<'_>, index: usize) -> Result<T, String> {
    row.get(index).map_err(|error| error.to_string())
}

fn state_row(row: &Row<'_>, at: usize) -> StateRow {
    StateRow {
        running: column(row, at),
        finished: column(row, at + 1),
        acked: column(row, at + 2),
        finished_at: column(row, at + 3),
        exit_status: column(row, at + 4),
    }
}

fn agent_state_row(row: &Row<'_>, at: usize) -> AgentStateRow {
    AgentStateRow { status: column(row, at), acked: column(row, at + 1) }
}

fn host_row(row: &Row<'_>, at: usize) -> HostRow {
    HostRow {
        shell: column(row, at),
        tmux: column(row, at + 1),
        orchestrator_id: column(row, at + 2),
        shell_id: column(row, at + 3),
        shell_cwd: column(row, at + 4),
        tmux_id: column(row, at + 5),
        tmux_cwd: column(row, at + 6),
        tmux_pane: column(row, at + 7),
    }
}

fn process_row(row: &Row<'_>) -> ProcessRow {
    ProcessRow {
        id: column(row, 0),
        label: column(row, 1),
        started_at: column(row, 2),
        state: state_row(row, 3),
        host: host_row(row, 8),
    }
}

fn agent_row(row: &Row<'_>) -> AgentRow {
    AgentRow {
        id: column(row, 0),
        kind: column(row, 1),
        started_at: column(row, 2),
        state: agent_state_row(row, 3),
        host: host_row(row, 5),
    }
}

fn fetch_rows<R>(
    connection: &Connection,
    sql: &str,
    values: &[i64],
    read: fn(&Row<'_>) -> R,
) -> Fetch<R> {
    let mut statement = match connection.prepare(sql) {
        Ok(statement) => statement,
        Err(error) => return Fetch::Rows { rows: Vec::new(), failure: Some(failure(error)) },
    };
    let mut rows = match statement.query(params_from_iter(values.iter())) {
        Ok(rows) => rows,
        Err(error) => return Fetch::Rows { rows: Vec::new(), failure: Some(failure(error)) },
    };
    let mut read_rows = Vec::new();
    loop {
        match rows.next() {
            Ok(Some(row)) => read_rows.push(read(row)),
            Ok(None) => return Fetch::Rows { rows: read_rows, failure: None },
            Err(error) => {
                return Fetch::Rows { rows: read_rows, failure: Some(failure(error)) };
            }
        }
    }
}

fn version_of(connection: &Connection) -> Result<i64, Error> {
    connection.pragma_query_value(None, "user_version", |row| row.get(0)).map_err(failed)
}

fn tables_in(connection: &Connection, version: i64) -> Result<i64, Failure> {
    if version != 0 {
        return Ok(0);
    }
    connection.query_row(schema::count_tables_sql(), [], |row| row.get(0)).map_err(failure)
}

fn apply(connection: &Connection, change: SchemaChange) -> Result<(), Error> {
    if let SchemaChange::Apply { scripts, version } = change {
        for script in scripts {
            connection.execute_batch(script).map_err(failed)?;
        }
        connection.pragma_update(None, "user_version", version).map_err(failed)?;
    }
    Ok(())
}

fn value(value: Value) -> rusqlite::types::Value {
    match value {
        Value::Integer(number) => rusqlite::types::Value::Integer(number),
        Value::Text(text) => rusqlite::types::Value::Text(text),
    }
}

fn optional<T>(found: rusqlite::Result<T>, answer: fn(Option<T>) -> Answer) -> Answer {
    match found {
        Ok(row) => answer(Some(row)),
        Err(rusqlite::Error::QueryReturnedNoRows) => answer(None),
        Err(error) => Answer::Failed(failure(error)),
    }
}

fn execute(connection: &Connection, statement: &Statement) -> Answer {
    let sql = statement.sql();
    let values = params_from_iter(statement.params().into_iter().map(value));
    match statement {
        Statement::InsertShell { .. }
        | Statement::InsertTmux { .. }
        | Statement::InsertProcess { .. }
        | Statement::InsertAgent { .. } => match connection.execute(sql, values) {
            Ok(_) => Answer::Inserted(connection.last_insert_rowid()),
            Err(error) => Answer::Failed(failure(error)),
        },
        Statement::FinishProcess { .. }
        | Statement::AcknowledgeProcess { .. }
        | Statement::SetStatus { .. }
        | Statement::AcknowledgeAgent { .. }
        | Statement::DeleteRow { .. }
        | Statement::DeleteHost { .. } => match connection.execute(sql, values) {
            Ok(count) => Answer::Changed(count),
            Err(error) => Answer::Failed(failure(error)),
        },
        Statement::ReadState { .. } => {
            optional(connection.query_row(sql, values, |row| Ok(state_row(row, 0))), Answer::State)
        }
        Statement::ReadAgentState { .. } => optional(
            connection.query_row(sql, values, |row| Ok(agent_state_row(row, 0))),
            Answer::AgentState,
        ),
        Statement::ReadReference { .. } => optional(
            connection.query_row(sql, values, |row| Ok((row.get(0)?, row.get(1)?, row.get(2)?))),
            Answer::Reference,
        ),
        Statement::CountReferences { .. } => {
            match connection.query_row(sql, values, |row| row.get(0)) {
                Ok(count) => Answer::Count(count),
                Err(error) => Answer::Failed(failure(error)),
            }
        }
    }
}

fn carry_out(connection: &Connection, storage: Storage, job: Job) -> Result<Outcome, Error> {
    let mut action = Transaction::begin(storage, job);
    loop {
        match action {
            Action::Run { statement, rest } => {
                let answer = execute(connection, &statement);
                action = rest.advance(answer, now());
            }
            Action::Commit(outcome) => return Ok(outcome),
            Action::Abort(error) => return Err(error),
        }
    }
}

/// A database, driven by the library.
struct Store {
    path: PathBuf,
    storage: Storage,
    connection: RefCell<Option<Connection>>,
}

impl Store {
    fn open(path: &Path, handle: u64) -> Result<Store, Error> {
        Store::open_with(path, Storage { handle, read_only: false })
    }

    fn open_read_only(path: &Path, handle: u64) -> Result<Store, Error> {
        Store::open_with(path, Storage { handle, read_only: true })
    }

    fn open_with(path: &Path, wanted: Storage) -> Result<Store, Error> {
        let mut store = Store {
            path: path.to_path_buf(),
            storage: wanted,
            connection: RefCell::new(None),
        };
        let schema = store.connect().map(|_| ());
        store.storage = if wanted.read_only {
            Storage::open_read_only(wanted.handle, schema)?
        } else {
            Storage::open(wanted.handle, schema)?
        };
        Ok(store)
    }

    /// Whether there is a database, connected to where there is.
    fn connect(&self) -> Result<bool, Error> {
        let mut slot = self.connection.borrow_mut();
        let access = self.storage.readable(slot.is_some(), self.path.exists());
        let flags = match access {
            Access::Ready => return Ok(true),
            Access::Absent => return Ok(false),
            Access::Check => OpenFlags::SQLITE_OPEN_READ_ONLY,
            Access::Migrate => OpenFlags::SQLITE_OPEN_READ_WRITE,
        };
        let mut connection = Connection::open_with_flags(&self.path, flags).map_err(failed)?;
        connection
            .busy_timeout(Duration::from_millis(schema::BUSY_TIMEOUT_MS))
            .map_err(failed)?;
        if access == Access::Check {
            self.check(&connection)?;
        } else {
            let transaction = connection
                .transaction_with_behavior(TransactionBehavior::Immediate)
                .map_err(failed)?;
            let version = version_of(&transaction)?;
            let tables = tables_in(&transaction, version);
            apply(
                &transaction,
                schema::migrate_or_check_schema(&self.path.to_string_lossy(), version, tables)?,
            )?;
            transaction.commit().map_err(failed)?;
        }
        *slot = Some(connection);
        Ok(true)
    }

    fn check(&self, connection: &Connection) -> Result<(), Error> {
        let version = version_of(connection)?;
        let tables = tables_in(connection, version);
        schema::ensure_initialized(&self.path.to_string_lossy(), version, tables)
    }

    fn fetch<R>(&self, sql: &str, values: &[i64], read: fn(&Row<'_>) -> R) -> Fetch<R> {
        match self.connect() {
            Err(error) => return Fetch::Refused(error),
            Ok(false) => return Fetch::Absent,
            Ok(true) => {}
        }
        let slot = self.connection.borrow();
        let connection = slot.as_ref().unwrap();
        if let Err(error) = self.check(connection) {
            return Fetch::Refused(error);
        }
        fetch_rows(connection, sql, values, read)
    }

    fn write(&self, job: Job) -> Result<Outcome, Error> {
        self.storage.writable()?;
        self.connect()?;
        let mut slot = self.connection.borrow_mut();
        if slot.is_none() {
            *slot = Some(Connection::open(&self.path).map_err(failed)?);
        }
        let connection = slot.as_mut().unwrap();
        let transaction = connection
            .transaction_with_behavior(TransactionBehavior::Immediate)
            .map_err(failed)?;
        let version = version_of(&transaction)?;
        let tables = tables_in(&transaction, version);
        apply(
            &transaction,
            schema::initialize_schema(&self.path.to_string_lossy(), version, tables)?,
        )?;
        transaction.commit().map_err(failed)?;
        let transaction = connection
            .transaction_with_behavior(TransactionBehavior::Immediate)
            .map_err(failed)?;
        let outcome = carry_out(&transaction, self.storage, job)?;
        transaction.commit().map_err(failed)?;
        Ok(outcome)
    }

    fn processes(&self, query: ProcessQuery) -> Result<Vec<ProcessRun>, Error> {
        self.storage.query_processes(self.fetch(&query.sql(), &query.params(), process_row))
    }

    fn agents(&self, query: AgentQuery) -> Result<Vec<AgentRun>, Error> {
        self.storage.query_agents(self.fetch(&query.sql(), &query.params(), agent_row))
    }

    fn latest(&self, sql: &str) -> Result<Option<Option<i64>>, Error> {
        if !self.connect()? {
            return Ok(None);
        }
        let slot = self.connection.borrow();
        let connection = slot.as_ref().unwrap();
        self.check(connection)?;
        connection.query_row(sql, [], |row| row.get(0)).map(Some).map_err(failed)
    }

    fn environment(&self) -> Environment {
        Environment { cwd: Ok("/work".to_string()), vars: Vec::new() }
    }

    fn start_process(&self, label: &str) -> Result<ProcessRun, Error> {
        started(self.write(self.storage.start_process(label, &self.environment())?))
    }

    fn create_process(
        &self,
        label: &str,
        cwd: &str,
        pane: Option<&str>,
    ) -> Result<ProcessRun, Error> {
        let pane = pane.map(|pane| pane.to_string());
        started(self.write(self.storage.create_process(label, cwd.to_string(), pane)))
    }

    fn register_agent(&self, kind: &str) -> Result<AgentRun, Error> {
        registered(self.write(self.storage.register_agent(kind, &self.environment())?))
    }

    fn create_agent(&self, kind: &str, cwd: &str, pane: Option<&str>) -> Result<AgentRun, Error> {
        let pane = pane.map(|pane| pane.to_string());
        registered(self.write(self.storage.create_agent(kind, cwd.to_string(), pane)?))
    }

    fn get_process(&self, id: i64) -> Result<ProcessRun, Error> {
        let query = self.storage.get_process(id)?;
        self.storage.found_process(id, self.processes(query))
    }

    fn get_agent(&self, id: i64) -> Result<AgentRun, Error> {
        let query = self.storage.get_agent(id)?;
        self.storage.found_agent(id, self.agents(query))
    }

    fn all_process(&self) -> Result<Vec<ProcessRun>, Error> {
        self.processes(self.storage.all_process())
    }

    fn running_process(&self) -> Result<Vec<ProcessRun>, Error> {
        self.processes(self.storage.running_process())
    }

    fn unacked_process(&self) -> Result<Vec<ProcessRun>, Error> {
        self.processes(self.storage.unacked_process())
    }

    fn range_process(
        &self,
        after: i64,
        through: i64,
        limit: usize,
    ) -> Result<Vec<ProcessRun>, Error> {
        self.processes(self.storage.range_process(after, through, limit)?)
    }

    fn latest_process(&self) -> Result<Option<i64>, Error> {
        self.storage.latest_process(self.latest(query::latest_process_sql()))
    }

    fn all_agent(&self) -> Result<Vec<AgentRun>, Error> {
        self.agents(self.storage.all_agent())
    }

    fn active_agent(&self) -> Result<Vec<AgentRun>, Error> {
        self.agents(self.storage.active_agent())
    }

    fn unkilled_agent(&self) -> Result<Vec<AgentRun>, Error> {
        self.agents(self.storage.unkilled_agent())
    }

    fn range_agent(&self, after: i64, through: i64, limit: usize) -> Result<Vec<AgentRun>, Error> {
        self.agents(self.storage.range_agent(after, through, limit)?)
    }

    fn latest_agent(&self) -> Result<Option<i64>, Error> {
        self.storage.latest_agent(self.latest(query::latest_agent_sql()))
    }

    fn process_states(&self, ids: &Vec<i64>) -> Fetch<ProcessStateRow> {
        let read = |row: &Row<'_>| ProcessStateRow { id: column(row, 0), state: state_row(row, 1) };
        let mut all = Vec::new();
        for chunk in query::state_chunks(ids) {
            match self.fetch(&query::process_states_sql(chunk.len()), &chunk, read) {
                Fetch::Rows { rows, failure } => {
                    all.extend(rows);
                    if failure.is_some() {
                        return Fetch::Rows { rows: all, failure };
                    }
                }
                other => return other,
            }
        }
        Fetch::Rows { rows: all, failure: None }
    }

    fn agent_states(&self, ids: &Vec<i64>) -> Fetch<AgentStatusRow> {
        let read =
            |row: &Row<'_>| AgentStatusRow { id: column(row, 0), state: agent_state_row(row, 1) };
        let mut all = Vec::new();
        for chunk in query::state_chunks(ids) {
            match self.fetch(&query::agent_states_sql(chunk.len()), &chunk, read) {
                Fetch::Rows { rows, failure } => {
                    all.extend(rows);
                    if failure.is_some() {
                        return Fetch::Rows { rows: all, failure };
                    }
                }
                other => return other,
            }
        }
        Fetch::Rows { rows: all, failure: None }
    }

    fn state_process(&self, id: i64) -> Result<ProcessState, Error> {
        self.storage.state_process(id, self.process_states(&vec![id]))
    }

    fn state_agent(&self, id: i64) -> Result<(AgentStatus, bool), Error> {
        self.storage.state_agent(id, self.agent_states(&vec![id]))
    }

    fn sync_process(&self, processes: &mut Vec<ProcessRun>) -> Result<(), Error> {
        let ids = self.storage.pending_process(processes)?;
        self.storage.sync_process(processes, self.process_states(&ids))
    }

    fn sync_agent(&self, agents: &mut Vec<AgentRun>) -> Result<(), Error> {
        let ids = self.storage.pending_agent(agents)?;
        self.storage.sync_agent(agents, self.agent_states(&ids))
    }

    fn finish(&self, process: &mut ProcessRun, status: u8) -> Result<(), Error> {
        process.finish(state(self.write(self.storage.finish_process(process.id(), status))))
    }

    fn acknowledge(&self, process: &mut ProcessRun) -> Result<(), Error> {
        process.acknowledge(state(self.write(self.storage.acknowledge_process(process.id()))))
    }

    fn state_of(&self, process: &mut ProcessRun) -> Result<ProcessState, Error> {
        process.state(self.state_process(process.id()))
    }

    fn set_status_agent(
        &self,
        id: i64,
        wanted: AgentStatus,
    ) -> Result<(AgentStatus, bool), Error> {
        status(self.write(self.storage.set_status_agent(id, wanted)))
    }

    fn acknowledge_agent(&self, id: i64) -> Result<(AgentStatus, bool), Error> {
        status(self.write(self.storage.acknowledge_agent(id)))
    }

    fn acknowledge_agent_if_done(&self, id: i64) -> Result<(AgentStatus, bool), Error> {
        status(self.write(self.storage.acknowledge_agent_if_done(id)))
    }

    fn set_status(&self, agent: &mut AgentRun, wanted: AgentStatus) -> Result<(), Error> {
        agent.set_status(self.set_status_agent(agent.id(), wanted))
    }

    fn acknowledge_run(&self, agent: &mut AgentRun) -> Result<(), Error> {
        agent.acknowledge(self.acknowledge_agent(agent.id()))
    }

    fn delete_process(&self, id: i64) -> Result<(), Error> {
        self.write(self.storage.delete_process(id)).map(|_| ())
    }

    fn delete_agent(&self, id: i64) -> Result<(), Error> {
        self.write(self.storage.delete_agent(id)).map(|_| ())
    }
}

fn started(written: Result<Outcome, Error>) -> Result<ProcessRun, Error> {
    match written? {
        Outcome::Started(process) => Ok(process),
        _ => panic!("no command was started"),
    }
}

fn registered(written: Result<Outcome, Error>) -> Result<AgentRun, Error> {
    match written? {
        Outcome::Registered(agent) => Ok(agent),
        _ => panic!("no agent was registered"),
    }
}

fn state(written: Result<Outcome, Error>) -> Result<ProcessState, Error> {
    match written? {
        Outcome::State(state) => Ok(state),
        _ => panic!("no state was written"),
    }
}

fn status(written: Result<Outcome, Error>) -> Result<(AgentStatus, bool), Error> {
    match written? {
        Outcome::AgentState { status, acknowledged } => Ok((status, acknowledged)),
        _ => panic!("no status was written"),
    }
}

fn numbers(connection: &Connection, sql: &str) -> rusqlite::Result<Vec<i64>> {
    let mut statement = connection.prepare(sql)?;
    let mut rows = statement.query([])?;
    let mut ids = Vec::new();
    while let Some(row) = rows.next()? {
        ids.push(row.get(0)?);
    }
    Ok(ids)
}

/// What is to be collected now.
fn collection_due(connection: &Connection) -> Result<Option<Collection>, Error> {
    let version = version_of(connection)?;
    if !schema::collects_from(version) {
        return Ok(None);
    }
    let count = |sql: &str| connection.query_row(sql, [], |row| row.get::<_, i64>(0));
    let processes = count(schema::count_collectible_processes_sql()).map_err(failed)?;
    let agents = count(schema::count_collectible_agents_sql()).map_err(failed)?;
    Ok(Storage::collect_stale(version, processes, agents))
}

/// Removes old items, as far as there are too many of them.
fn collect_stale(path: &Path) -> Result<(), Error> {
    if !path.exists() {
        return Ok(());
    }
    let mut connection =
        Connection::open_with_flags(path, OpenFlags::SQLITE_OPEN_READ_WRITE).map_err(failed)?;
    if collection_due(&connection)?.is_none() {
        return Ok(());
    }
    connection.busy_timeout(Duration::ZERO).map_err(failed)?;
    let transaction =
        match connection.transaction_with_behavior(TransactionBehavior::Immediate) {
            Ok(transaction) => transaction,
            Err(error) => return schema::collection_failed(failure(error)),
        };
    // Another collection may have run before this transaction began.
    let Some(collection) = collection_due(&transaction)? else {
        return Ok(());
    };
    apply(&transaction, collection.schema_change())?;
    let processes =
        numbers(&transaction, schema::collectible_processes_sql()).map_err(failed)?;
    let agents = numbers(&transaction, schema::collectible_agents_sql()).map_err(failed)?;
    let storage = Storage { handle: 0, read_only: false };
    for job in collection.jobs(&processes, &agents) {
        carry_out(&transaction, storage, job)?;
    }
    transaction.commit().map_err(failed)
}

fn load(store: &Store, dry_run: bool) -> Result<PanelData, Error> {
    load_while(store, dry_run, |_| {})
}

/// Loads a panel while something else happens before each question.
fn load_while(
    store: &Store,
    dry_run: bool,
    mut happen: impl FnMut(usize),
) -> Result<PanelData, Error> {
    let mut event = LoadEvent::Started;
    let mut asked = 0;
    loop {
        let step = PanelData::load_next(store.storage, dry_run, event);
        asked += 1;
        happen(asked);
        event = match step {
            LoadStep::LatestAgent => LoadEvent::LatestAgent(store.latest_agent()),
            LoadStep::LatestProcess { agent_mark } => LoadEvent::LatestProcess {
                agent_mark,
                latest: store.latest_process(),
            },
            LoadStep::Agents { marks, query } => LoadEvent::Agents {
                marks,
                found: store.agents(query),
            },
            LoadStep::Processes { marks, agents, process_query } => LoadEvent::Processes {
                marks,
                agents,
                found_processes: store.processes(process_query),
            },
            LoadStep::Loaded(panel) => return Ok(panel),
            LoadStep::Failed(error) => return Err(error),
        };
    }
}

fn sync(panel: &mut PanelData, store: &Store) -> Result<(), Error> {
    let mut event = SyncEvent::Started;
    loop {
        event = match panel.sync(event) {
            SyncStep::LatestAgent => SyncEvent::LatestAgent(store.latest_agent()),
            SyncStep::Agents { through, query } => SyncEvent::Agents {
                through,
                found: store.agents(query),
            },
            SyncStep::LatestProcess => SyncEvent::LatestProcess(store.latest_process()),
            SyncStep::Processes { through, process_query } => SyncEvent::Processes {
                through,
                found_processes: store.processes(process_query),
            },
            SyncStep::AgentStates(ids) => SyncEvent::AgentStates(store.agent_states(&ids)),
            SyncStep::ProcessStates(ids) => SyncEvent::ProcessStates(store.process_states(&ids)),
            SyncStep::Done => return Ok(()),
            SyncStep::Failed(error) => return Err(error),
        };
    }
}

/// Focuses an item, with answers of tmux that are given beforehand.
fn focus(
    panel: &mut PanelData,
    store: &Store,
    target: TrackedId,
    args: Vec<String>,
    mut answers: Vec<Result<String, String>>,
) -> Result<bool, Error> {
    let mut event = match target {
        TrackedId::Agent(id) => TargetEvent::Agent { id, agent_event: FocusEvent::Asked(args) },
        TrackedId::Process(id) => TargetEvent::Process {
            id,
            process_event: FocusEvent::Asked(args),
        },
    };
    loop {
        let step = match panel.focus(event) {
            TargetStep::Previewed => return Ok(false),
            TargetStep::Focus(step) => step,
        };
        event = match (step, target) {
            (FocusStep::Arrived(_), _) => return Ok(true),
            (FocusStep::Failed(error), _) => return Err(error),
            (FocusStep::Tmux { stage, .. }, TrackedId::Agent(id)) => TargetEvent::Agent {
                id,
                agent_event: FocusEvent::Tmux { stage, output: answers.remove(0) },
            },
            (FocusStep::Tmux { stage, .. }, TrackedId::Process(id)) => TargetEvent::Process {
                id,
                process_event: FocusEvent::Tmux { stage, output: answers.remove(0) },
            },
            (FocusStep::Read { target }, TrackedId::Agent(id)) => TargetEvent::Agent {
                id,
                agent_event: FocusEvent::Read { target, answer: store.state_agent(id) },
            },
            (FocusStep::Read { target }, TrackedId::Process(id)) => TargetEvent::Process {
                id,
                process_event: FocusEvent::Read { target, answer: store.state_process(id) },
            },
            (FocusStep::Write { target, job }, TrackedId::Agent(id)) => TargetEvent::Agent {
                id,
                agent_event: FocusEvent::Written { target, answer: status(store.write(job)) },
            },
            (FocusStep::Write { target, job }, TrackedId::Process(id)) => TargetEvent::Process {
                id,
                process_event: FocusEvent::Written { target, answer: state(store.write(job)) },
            },
        };
    }
}

fn delete(panel: &mut PanelData, store: &Store, target: TrackedId) -> Result<(), Error> {
    let job = panel.delete_job(target)?;
    let removed = store.write(job).map(|_| ());
    panel.delete(target, removed)
}

fn toggle_history(panel: &mut PanelData, store: &Store) -> Result<(), Error> {
    let latest = if panel.wants_history_end() { store.latest_process() } else { Ok(None) };
    panel.toggle_history(latest)
}

fn load_history(panel: &mut PanelData, store: &Store) -> Result<(), Error> {
    let found = match panel.history_query() {
        None => Ok(Vec::new()),
        Some(Ok(query)) => store.processes(query),
        Some(Err(error)) => Err(error),
    };
    panel.load_history_batch(found)
}

fn row_ids(snapshot: &PanelSnapshot) -> Vec<TrackedId> {
    snapshot.rows.iter().map(TrackedSnapshot::id).collect()
}

fn has_agent(panel: &PanelData, id: i64) -> bool {
    panel.agents.iter().any(|agent| agent.id() == id)
}

fn cells(rows: &[Vec<String>]) -> Vec<ratatui::widgets::Row<'static>> {
    rows.iter().map(|row| ratatui::widgets::Row::new(row.clone())).collect()
}

fn constraints(rooms: Vec<Room>) -> Vec<Constraint> {
    rooms
        .into_iter()
        .map(|room| match room {
            Room::AtLeast(length) => Constraint::Min(length),
            Room::Exactly(length) => Constraint::Length(length),
        })
        .collect()
}

/// The lines of a terminal that shows a panel.
fn rendered(panel: &Panel, width: u16, height: u16) -> Vec<String> {
    let drawing = screen::draw(panel, now());
    let mut terminal =
        ratatui::Terminal::new(ratatui::backend::TestBackend::new(width, height)).unwrap();
    terminal
        .draw(|frame| {
            let areas =
                Layout::vertical(constraints(screen::screen_rows())).split(frame.area());
            let tables =
                Layout::vertical(constraints(screen::table_rows(drawing.agent_height)))
                    .split(areas[0]);
            let agents = Table::new(
                cells(&drawing.agent_rows),
                constraints(screen::agent_columns()),
            )
            .header(ratatui::widgets::Row::new(screen::agent_header()))
            .block(Block::default().borders(Borders::ALL).title("agents"));
            let processes = Table::new(
                cells(&drawing.process_rows),
                constraints(screen::process_columns()),
            )
            .header(ratatui::widgets::Row::new(screen::process_header()))
            .block(Block::default().borders(Borders::ALL).title("processes"));
            frame.render_widget(agents, tables[0]);
            frame.render_widget(processes, tables[1]);
            frame.render_widget(Paragraph::new(drawing.status), areas[1]);
            frame.render_widget(Paragraph::new(screen::help_line()), areas[2]);
        })
        .unwrap();
    terminal
        .backend()
        .buffer()
        .content()
        .chunks(width as usize)
        .map(|row| row.iter().map(|cell| cell.symbol()).collect())
        .collect()
}

#[test]
fn initial_load_retains_non_killed_agents_but_renders_only_actionable() {
    let fixture = Fixture::new();
    let storage = fixture.storage();
    let idle = storage.create_agent("idle", "/idle", None).unwrap();
    let mut done = storage.create_agent("done", "/done", None).unwrap();
    storage.set_status(&mut done, AgentStatus::Working).unwrap();
    storage.set_status(&mut done, AgentStatus::Done).unwrap();
    storage.acknowledge_run(&mut done).unwrap();
    let mut killed = storage.create_agent("killed", "/killed", None).unwrap();
    storage.set_status(&mut killed, AgentStatus::Killed).unwrap();

    let mut panel = load(&fixture.storage(), false).unwrap();
    panel.resize(20);
    assert_eq!(panel.agents.len(), 2);
    assert!(has_agent(&panel, done.id()));
    assert!(!has_agent(&panel, killed.id()));
    assert_eq!(
        row_ids(&panel.snapshot()),
        vec![TrackedId::Agent(idle.id())]
    );
}

#[test]
fn agent_order_precedes_processes_and_uses_status_priority_then_recency() {
    let fixture = Fixture::new();
    let storage = fixture.storage();
    let process = storage.create_process("process", "/process", None).unwrap();
    let idle = storage.create_agent("idle", "/idle", None).unwrap();
    let mut working_old = storage.create_agent("working-old", "/old", None).unwrap();
    storage.set_status(&mut working_old, AgentStatus::Working).unwrap();
    let mut working_new = storage.create_agent("working-new", "/new", None).unwrap();
    storage.set_status(&mut working_new, AgentStatus::Working).unwrap();
    let mut waiting = storage.create_agent("waiting", "/waiting", None).unwrap();
    storage.set_status(&mut waiting, AgentStatus::Working).unwrap();
    storage.set_status(&mut waiting, AgentStatus::Waiting).unwrap();
    let mut done = storage.create_agent("done", "/done", None).unwrap();
    storage.set_status(&mut done, AgentStatus::Working).unwrap();
    storage.set_status(&mut done, AgentStatus::Done).unwrap();

    let connection = Connection::open(fixture.path()).unwrap();
    for (id, started_at) in [
        (idle.id(), 100),
        (working_old.id(), 200),
        (working_new.id(), 300),
        (waiting.id(), 50),
        (done.id(), 400),
    ] {
        connection
            .execute(
                "UPDATE agents SET started_at=?2 WHERE id=?1",
                [id, started_at],
            )
            .unwrap();
    }

    let mut panel = load(&fixture.storage(), false).unwrap();
    panel.resize(20);
    assert_eq!(
        row_ids(&panel.snapshot()),
        vec![
            TrackedId::Agent(waiting.id()),
            TrackedId::Agent(idle.id()),
            TrackedId::Agent(working_new.id()),
            TrackedId::Agent(working_old.id()),
            TrackedId::Agent(done.id()),
            TrackedId::Process(process.id()),
        ]
    );
    assert_eq!(process.id(), idle.id(), "table-local IDs should overlap");
}

#[test]
fn discovery_sync_hiding_and_reactivation_use_authoritative_agent_state() {
    let fixture = Fixture::new();
    let writer = fixture.storage();
    let reader = fixture.storage();
    let mut panel = load(&reader, false).unwrap();
    panel.resize(20);

    let mut agent = writer.create_agent("pi", "/agent", None).unwrap();
    sync(&mut panel, &reader).unwrap();
    assert_eq!(
        row_ids(&panel.snapshot()),
        vec![TrackedId::Agent(agent.id())]
    );

    writer.set_status(&mut agent, AgentStatus::Working).unwrap();
    writer.set_status(&mut agent, AgentStatus::Done).unwrap();
    writer.acknowledge_run(&mut agent).unwrap();
    sync(&mut panel, &reader).unwrap();
    assert!(panel.snapshot().rows.is_empty());
    assert!(has_agent(&panel, agent.id()));

    writer.set_status(&mut agent, AgentStatus::Working).unwrap();
    writer.set_status(&mut agent, AgentStatus::Waiting).unwrap();
    sync(&mut panel, &reader).unwrap();
    let snapshot = panel.snapshot();
    assert_eq!(row_ids(&snapshot), vec![TrackedId::Agent(agent.id())]);
    match &snapshot.rows[0] {
        TrackedSnapshot::Agent(value) => assert_eq!(value.status, AgentStatus::Waiting),
        TrackedSnapshot::Process(_) => panic!("agent was misrouted"),
    }

    writer.set_status(&mut agent, AgentStatus::Killed).unwrap();
    sync(&mut panel, &reader).unwrap();
    assert!(panel.snapshot().rows.is_empty());
    assert!(!panel.agents.iter().find(|held| held.id() == agent.id()).unwrap().needs_sync());
}

#[test]
fn background_maintenance_is_disabled_for_dry_run_and_does_not_create_a_database() {
    let fixture = Fixture::new();
    assert!(!worker::start_background_maintenance(true));
    assert!(!fixture.path().exists());

    assert!(worker::start_background_maintenance(false));
    collect_stale(fixture.path()).unwrap();
    assert!(!fixture.path().exists());
}

#[test]
fn selection_is_typed_and_survives_agent_reordering() {
    let fixture = Fixture::new();
    let writer = fixture.storage();
    let process = writer.create_process("process", "/process", None).unwrap();
    let mut agent = writer.create_agent("pi", "/agent", None).unwrap();
    let reader = fixture.storage();
    let mut panel = load(&reader, false).unwrap();
    panel.resize(20);

    panel.selected = Some(TrackedId::Process(process.id()));
    writer.set_status(&mut agent, AgentStatus::Working).unwrap();
    writer.set_status(&mut agent, AgentStatus::Waiting).unwrap();
    sync(&mut panel, &reader).unwrap();
    assert_eq!(panel.selected, Some(TrackedId::Process(process.id())));

    panel.selected = Some(TrackedId::Agent(agent.id()));
    writer.set_status(&mut agent, AgentStatus::Working).unwrap();
    writer.set_status(&mut agent, AgentStatus::Done).unwrap();
    writer.acknowledge_run(&mut agent).unwrap();
    sync(&mut panel, &reader).unwrap();
    assert_eq!(panel.selected, Some(TrackedId::Process(process.id())));
}

#[test]
fn focus_requests_are_typed() {
    let mut panel = Panel::empty();
    panel.snapshot.selected = Some(TrackedId::Agent(1));
    assert!(matches!(
        panel.navigate(None).unwrap(),
        PanelRequest::Focus {
            target: TrackedId::Agent(1),
            ..
        }
    ));
}

#[test]
fn overlapping_ids_cannot_misroute_worker_actions() {
    let fixture = Fixture::new();
    let writer = fixture.storage();
    let mut process = writer.create_process("process", "/process", None).unwrap();
    writer.finish(&mut process, 0).unwrap();
    let agent = writer.create_agent("pi", "/agent", None).unwrap();
    assert_eq!(process.id(), agent.id());

    let reader = fixture.storage();
    let mut panel = load(&reader, true).unwrap();
    Connection::open(fixture.path())
        .unwrap()
        .execute("DELETE FROM agents WHERE id=?1", [agent.id()])
        .unwrap();
    assert!(matches!(
        focus(&mut panel, &reader, TrackedId::Agent(agent.id()), vec![], vec![]),
        Err(Error::AgentNotFound(id)) if id == agent.id()
    ));
    assert!(
        !focus(&mut panel, &reader, TrackedId::Process(process.id()), vec![], vec![]).unwrap()
    );
}

#[test]
fn agent_table_omits_the_process_exit_column() {
    let fixture = Fixture::new();
    let storage = fixture.storage();
    storage.create_agent("pi", "/agent", None).unwrap();
    storage.create_process("process", "/process", None).unwrap();
    let mut panel_data = load(&fixture.storage(), false).unwrap();
    panel_data.resize(20);

    let mut panel = Panel::empty();
    panel.update(panel_data.snapshot());
    let rows = rendered(&panel, 120, 20);

    assert!(rows[1].contains("command"));
    assert!(!rows[1].contains("exit"));
    assert!(rows[5].contains("exit"));
}

#[test]
fn deleting_a_failed_target_is_typed_and_updates_the_panel() {
    let fixture = Fixture::new();
    let writer = fixture.storage();
    let process = writer.create_process("process", "/process", None).unwrap();
    let agent = writer.create_agent("pi", "/agent", None).unwrap();
    assert_eq!(process.id(), agent.id());
    let reader = fixture.storage();
    let mut panel = load(&reader, false).unwrap();
    panel.resize(20);

    delete(&mut panel, &reader, TrackedId::Agent(agent.id())).unwrap();

    assert!(matches!(
        writer.get_agent(agent.id()),
        Err(Error::AgentNotFound(_))
    ));
    assert!(writer.get_process(process.id()).is_ok());
    assert_eq!(
        row_ids(&panel.snapshot()),
        vec![TrackedId::Process(process.id())]
    );
}

#[test]
fn history_changes_process_rows_only_and_draw_uses_snapshots() {
    let fixture = Fixture::new();
    let storage = fixture.storage();
    let mut agent = storage.create_agent("pi", "/agent", None).unwrap();
    storage.set_status(&mut agent, AgentStatus::Working).unwrap();
    storage.set_status(&mut agent, AgentStatus::Done).unwrap();
    storage.acknowledge_run(&mut agent).unwrap();
    let process = storage.create_process("process", "/process", None).unwrap();
    let reader = fixture.storage();
    let mut panel_data = load(&reader, false).unwrap();
    panel_data.resize(20);
    assert_eq!(
        row_ids(&panel_data.snapshot()),
        vec![TrackedId::Process(process.id())]
    );
    toggle_history(&mut panel_data, &reader).unwrap();
    assert_eq!(
        row_ids(&panel_data.snapshot()),
        vec![TrackedId::Process(process.id())]
    );

    let mut panel = Panel::empty();
    panel.update(panel_data.snapshot());
    drop(panel_data);
    drop(storage);
    let rendered = rendered(&panel, 120, 20).concat();
    assert!(rendered.contains("agents"));
    assert!(rendered.contains("processes"));
    assert!(rendered.contains("process"));
    assert!(!rendered.contains("type"));
    assert!(!rendered.contains("where"));
}

#[test]
fn history_is_loaded_in_parts_and_hidden_again() {
    let fixture = Fixture::new();
    let storage = fixture.storage();
    for _ in 0..3 {
        let mut process = storage.start_process("old").unwrap();
        storage.finish(&mut process, 0).unwrap();
        storage.acknowledge(&mut process).unwrap();
    }
    let reader = fixture.storage();
    let mut panel = load(&reader, false).unwrap();
    panel.resize(20);
    assert!(panel.snapshot().rows.is_empty());
    toggle_history(&mut panel, &reader).unwrap();
    assert!(panel.snapshot().history_loading);
    load_history(&mut panel, &reader).unwrap();
    assert_eq!(
        row_ids(&panel.snapshot()),
        vec![TrackedId::Process(3), TrackedId::Process(2), TrackedId::Process(1)]
    );
    assert!(!panel.snapshot().history_loading);
    toggle_history(&mut panel, &reader).unwrap();
    assert!(panel.snapshot().rows.is_empty());
}

#[test]
fn reaching_a_finished_command_acknowledges_it() {
    let fixture = Fixture::new();
    let storage = fixture.storage();
    let mut process = storage.create_process("make", "/work", Some("%7")).unwrap();
    storage.finish(&mut process, 2).unwrap();
    let running = storage.create_process("make", "/work", Some("%7")).unwrap();
    let mut panel = load(&storage, false).unwrap();
    let answers = || vec![Ok("%7\tmain:1.0\n".to_string()), Ok(String::new()), Ok(String::new())];

    let target = TrackedId::Process(process.id());
    assert!(focus(&mut panel, &storage, target, vec![], answers()).unwrap());
    assert!(storage.get_process(process.id()).unwrap().snapshot().acknowledged());

    let target = TrackedId::Process(running.id());
    assert!(focus(&mut panel, &storage, target, vec![], answers()).unwrap());
    assert_eq!(storage.state_process(running.id()).unwrap(), ProcessState::Running);
}

#[test]
fn missing_panes_acknowledge_nothing() {
    let fixture = Fixture::new();
    let storage = fixture.storage();
    let mut agent = storage.create_agent("pi", "/work", Some("%7")).unwrap();
    storage.set_status(&mut agent, AgentStatus::Working).unwrap();
    storage.set_status(&mut agent, AgentStatus::Done).unwrap();
    let mut panel = load(&storage, false).unwrap();
    let target = TrackedId::Agent(agent.id());
    match focus(&mut panel, &storage, target, vec![], vec![Ok("%8\tmain:1.0\n".to_string())]) {
        Err(error) => assert_eq!(error.message(), "tmux pane %7 is no longer available"),
        Ok(_) => panic!("a missing pane was reached"),
    }
    assert_eq!(storage.state_agent(agent.id()).unwrap(), (AgentStatus::Done, false));
    let answers = vec![Ok("%7\tmain:1.0\n".to_string()), Ok(String::new())];
    let args = vec!["--client".to_string(), "tty".to_string()];
    assert!(focus(&mut panel, &storage, target, args, answers).unwrap());
    assert_eq!(storage.state_agent(agent.id()).unwrap(), (AgentStatus::Done, true));
}

#[test]
fn selection_moves_within_the_list_and_the_view_follows() {
    let fixture = Fixture::new();
    let storage = fixture.storage();
    for label in ["one", "two", "three", "four"] {
        storage.start_process(label).unwrap();
    }
    let mut panel = load(&storage, false).unwrap();
    panel.resize(2);
    assert_eq!(panel.selected, Some(TrackedId::Process(4)));
    panel.move_selection(2);
    assert_eq!(panel.selected, Some(TrackedId::Process(2)));
    assert_eq!(panel.viewport_start, 1);
    panel.move_selection(10);
    assert_eq!(panel.selected, Some(TrackedId::Process(1)));
    assert_eq!(
        row_ids(&panel.snapshot()),
        vec![TrackedId::Process(2), TrackedId::Process(1)]
    );
    panel.move_selection(-10);
    assert_eq!(panel.selected, Some(TrackedId::Process(4)));
    assert_eq!(panel.viewport_start, 0);
}

#[test]
fn worker_tells_the_terminal_what_became_of_requests() {
    let fixture = Fixture::new();
    let storage = fixture.storage();
    let process = storage.start_process("make").unwrap();
    let mut worker = Worker::start(load(&storage, false).unwrap(), 0);
    assert_eq!(worker.wait(0), 100_000_000);
    assert_eq!(worker.wait(4_950_000_000), 50_000_000);
    assert!(!worker.refresh_due(4_999_999_999));
    assert!(worker.refresh_due(5_000_000_000));
    assert_eq!(worker.next_refresh, 10_000_000_000);

    match worker.accept(PanelRequest::Resize(5)) {
        Work::Tell(events) => assert!(matches!(
            &events[..],
            [PanelEvent::Updated(picture)] if picture.rows.len() == 1
        )),
        _ => panic!("nothing was told"),
    }
    let target = TrackedId::Process(process.id());
    match worker.accept(PanelRequest::Focus { target, args: vec![] }) {
        Work::Tell(events) => assert!(matches!(
            &events[..],
            [PanelEvent::FocusFailed { target: failed, message }]
                if *failed == target
                    && message == "terminal navigation unavailable: run was started in a shell at /work"
        )),
        _ => panic!("a shell was navigated to"),
    }
    assert!(matches!(
        worker.accept(PanelRequest::Delete(target)),
        Work::Delete { job: Job::DeleteProcess { .. }, .. }
    ));
    let events = worker.deleted(target, Ok(()));
    assert!(matches!(&events[..], [PanelEvent::Updated(picture)] if picture.rows.is_empty()));
    assert!(matches!(worker.accept(PanelRequest::ToggleHistory), Work::LatestProcess));
    worker.toggled(Ok(Some(1)));
    assert!(worker.history_due(0));
    assert!(matches!(
        worker.history_read(1, Err(Error::Busy("locked".to_string()))),
        PanelEvent::Failed(message) if message == "storage unavailable: locked"
    ));
    assert!(!worker.history_due(30_000_000));
    assert!(matches!(worker.accept(PanelRequest::Shutdown), Work::Stop));
}

#[test]
fn the_view_follows_the_selection_in_any_list() {
    let fixture = Fixture::new();
    let storage = fixture.storage();
    storage.start_process("one").unwrap();
    let mut panel = load(&storage, false).unwrap();
    let ids: Vec<TrackedId> = (1..=5).map(TrackedId::Agent).collect();
    panel.viewport_len = 2;
    panel.viewport_start = 0;
    panel.selected = Some(TrackedId::Agent(4));
    panel.ensure_selected_visible(&ids);
    assert_eq!(panel.viewport_start, 2);
    panel.ensure_selected_visible(&ids);
    assert_eq!(panel.viewport_start, 2);
    panel.viewport_start = 9;
    panel.ensure_selected_visible(&ids);
    assert_eq!(panel.viewport_start, 3);
    panel.selected = Some(TrackedId::Process(1));
    panel.ensure_selected_visible(&ids);
    assert_eq!(panel.viewport_start, 3);
    panel.selected = None;
    panel.ensure_selected_visible(&ids);
    assert_eq!(panel.viewport_start, 0);
}

#[test]
fn the_list_is_everything_but_the_hidden() {
    let fixture = Fixture::new();
    let storage = fixture.storage();
    let mut seen = storage.create_agent("seen", "/a", None).unwrap();
    storage.set_status(&mut seen, AgentStatus::Working).unwrap();
    storage.set_status(&mut seen, AgentStatus::Done).unwrap();
    storage.acknowledge_run(&mut seen).unwrap();
    storage.create_agent("idle", "/b", None).unwrap();
    storage.start_process("one").unwrap();
    let mut process = storage.start_process("two").unwrap();
    let mut panel = load(&storage, false).unwrap();
    storage.finish(&mut process, 0).unwrap();
    storage.acknowledge(&mut process).unwrap();
    sync(&mut panel, &storage).unwrap();
    assert_eq!(
        panel.all_ids(),
        vec![
            TrackedId::Agent(2),
            TrackedId::Agent(1),
            TrackedId::Process(2),
            TrackedId::Process(1),
        ]
    );
    assert_eq!(
        panel.matching_ids(),
        vec![TrackedId::Agent(2), TrackedId::Process(1)]
    );
}

#[test]
fn merging_commands_again_changes_nothing() {
    let fixture = Fixture::new();
    let storage = fixture.storage();
    let mut process = storage.start_process("one").unwrap();
    storage.finish(&mut process, 3).unwrap();
    let mut panel = load(&storage, false).unwrap();
    for _ in 0..2 {
        panel.merge_processes(storage.all_process().unwrap()).unwrap();
        assert_eq!(panel.processes.len(), 1);
        assert_eq!(panel.processes[0].snapshot().exit_status(), Some(3));
    }
}

#[test]
fn items_that_appear_while_the_panel_is_loaded_are_not_missed() {
    for moment in 1..=5 {
        let fixture = Fixture::new();
        let storage = fixture.storage();
        storage.create_agent("first", "/first", None).unwrap();
        storage.create_process("first", "/first", None).unwrap();
        let other = fixture.storage();
        let mut added = (0, 0);
        let reader = fixture.storage();
        let mut panel = load_while(&reader, false, |asked| {
            if asked == moment {
                added = (
                    other.create_agent("second", "/second", None).unwrap().id(),
                    other.create_process("second", "/second", None).unwrap().id(),
                );
            }
        })
        .unwrap();
        assert_eq!(panel.discovered_through, if moment <= 2 { added.1 } else { 1 });
        assert_eq!(panel.agent_discovered_through, if moment == 1 { added.0 } else { 1 });
        sync(&mut panel, &reader).unwrap();
        assert!(has_agent(&panel, added.0), "agent added before question {moment}");
        assert!(panel.processes.iter().any(|process| process.id() == added.1));
        assert_eq!(panel.agents.len(), 2);
        assert_eq!(panel.processes.len(), 2);
    }
}

#[test]
fn killed_and_acknowledged_items_appear_only_when_they_are_new() {
    let fixture = Fixture::new();
    let storage = fixture.storage();
    let mut old = storage.create_agent("old", "/old", None).unwrap();
    storage.set_status(&mut old, AgentStatus::Killed).unwrap();
    let mut panel = load(&storage, false).unwrap();
    let mut new = storage.create_agent("new", "/new", None).unwrap();
    storage.set_status(&mut new, AgentStatus::Killed).unwrap();
    sync(&mut panel, &storage).unwrap();
    assert!(!has_agent(&panel, old.id()));
    assert!(has_agent(&panel, new.id()));
    assert_eq!(panel.agents[0].snapshot().status, AgentStatus::Killed);
}

#[test]
fn synchronized_panels_show_stored_states() {
    let fixture = Fixture::new();
    let storage = fixture.storage();
    let mut agent = storage.create_agent("pi", "/a", None).unwrap();
    let mut process = storage.create_process("make", "/a", None).unwrap();
    let reader = fixture.storage();
    let mut panel = load(&reader, false).unwrap();
    storage.set_status(&mut agent, AgentStatus::Working).unwrap();
    storage.set_status(&mut agent, AgentStatus::Done).unwrap();
    storage.finish(&mut process, 3).unwrap();
    sync(&mut panel, &reader).unwrap();
    assert_eq!(panel.agents[0].snapshot().status, AgentStatus::Done);
    assert_eq!(panel.processes[0].snapshot().exit_status(), Some(3));
    storage.delete_process(process.id()).unwrap();
    assert!(matches!(sync(&mut panel, &reader), Err(Error::NotFound(id)) if id == process.id()));
}

#[test]
fn failed_questions_end_the_loading() {
    let storage = Fixture::new().storage().storage;
    let fails = |event| {
        matches!(
            PanelData::load_next(storage, false, event),
            LoadStep::Failed(Error::ReadOnly)
        )
    };
    assert!(matches!(
        PanelData::load_next(storage, false, LoadEvent::Started),
        LoadStep::LatestAgent
    ));
    assert!(fails(LoadEvent::LatestAgent(Err(Error::ReadOnly))));
    assert!(fails(LoadEvent::LatestProcess { agent_mark: 3, latest: Err(Error::ReadOnly) }));
    let marks = Marks { agent: 3, process: 4 };
    assert!(fails(LoadEvent::Agents { marks, found: Err(Error::ReadOnly) }));
    assert!(fails(LoadEvent::Processes {
        marks,
        agents: Vec::new(),
        found_processes: Err(Error::ReadOnly),
    }));
    assert!(matches!(
        PanelData::load_next(storage, false, LoadEvent::LatestAgent(Ok(None))),
        LoadStep::LatestProcess { agent_mark: 0 }
    ));
    match PanelData::load_next(
        storage,
        true,
        LoadEvent::Processes { marks, agents: Vec::new(), found_processes: Ok(Vec::new()) },
    ) {
        LoadStep::Loaded(panel) => {
            assert_eq!(panel.agent_discovered_through, 3);
            assert_eq!(panel.discovered_through, 4);
            assert!(panel.dry_run);
            assert_eq!(panel.selected, None);
        }
        _ => panic!("not loaded"),
    }
}

#[test]
fn parts_of_the_screen_ask_for_their_room() {
    assert_eq!(
        screen::screen_rows(),
        vec![Room::AtLeast(6), Room::Exactly(1), Room::Exactly(1)]
    );
    assert_eq!(screen::table_rows(9), vec![Room::Exactly(9), Room::AtLeast(3)]);
    assert_eq!(
        screen::agent_columns(),
        vec![Room::AtLeast(20), Room::Exactly(12), Room::Exactly(9), Room::AtLeast(16)]
    );
    assert_eq!(
        screen::process_columns(),
        vec![
            Room::AtLeast(20),
            Room::Exactly(12),
            Room::Exactly(4),
            Room::Exactly(9),
            Room::AtLeast(16)
        ]
    );
    assert_eq!((screen::POPUP_WIDTH, screen::POPUP_HEIGHT), (72, 7));
}
