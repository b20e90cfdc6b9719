//! What the rows of an answer stand for.

use vstd::prelude::*;

use crate::agent::{AgentRun, AgentStatus};
use crate::error::{reported, Error, ErrorView};
use crate::process::{ProcessRun, ProcessState};
use crate::query::{AgentStatusRow, Fetch, ProcessStateRow};
use crate::rows::{
    agent_fault, agent_of, agent_state_fault, agent_state_of, data_fault, fault_unless,
    lifecycle_of, or_fault, process_fault, process_of, state_fault, AgentRow, ProcessRow,
};
use crate::storage::Storage;
use crate::text::signed;

verus! {

/// A list with a plain error.
pub open spec fn listed<T>(r: Result<Vec<T>, Error>) -> Result<Seq<T>, ErrorView> {
    match r {
        Ok(list) => Ok(list@),
        Err(error) => Err(error@),
    }
}

/// The first item of a list, or the error that there is none.
pub open spec fn first_of<T>(list: Result<Seq<T>, ErrorView>, missing: ErrorView) -> Result<
    T,
    ErrorView,
> {
    match list {
        Err(error) => Err(error),
        Ok(items) => if items.len() == 0 {
            Err(missing)
        } else {
            Ok(items[0])
        },
    }
}

/// What rows of commands stand for: the first fault, or what each of them is.
pub open spec fn processes_in(rows: Seq<ProcessRow>, storage: Storage) -> Result<
    Seq<ProcessRun>,
    ErrorView,
>
    decreases rows.len(),
{
    if rows.len() == 0 {
        Ok(Seq::empty())
    } else {
        match processes_in(rows.drop_last(), storage) {
            Err(error) => Err(error),
            Ok(before) => match process_fault(rows.last()) {
                Some(text) => Err(ErrorView::CorruptData(text)),
                None => Ok(before.push(process_of(rows.last(), storage))),
            },
        }
    }
}

/// What an answer with rows of commands stands for; without a database there are none.
pub open spec fn processes_fetched(fetch: Fetch<ProcessRow>, storage: Storage) -> Result<
    Seq<ProcessRun>,
    ErrorView,
> {
    match fetch {
        Fetch::Absent => Ok(Seq::empty()),
        Fetch::Refused(error) => Err(error@),
        Fetch::Rows { rows, failure } => match processes_in(rows@, storage) {
            Err(error) => Err(error),
            Ok(found) => match failure {
                Some(failure) => Err(reported(failure)),
                None => Ok(found),
            },
        },
    }
}

/// Once a row of commands is faulty, the rows behind it do not matter.
pub proof fn lemma_processes_fault(rows: Seq<ProcessRow>, storage: Storage, n: int)
    requires
        0 <= n <= rows.len(),
        processes_in(rows.take(n), storage) is Err,
    ensures
        processes_in(rows, storage) == processes_in(rows.take(n), storage),
    decreases rows.len() - n,
{
    if n < rows.len() {
        assert(rows.take(n + 1).drop_last() =~= rows.take(n));
        lemma_processes_fault(rows, storage, n + 1);
    } else {
        assert(rows.take(n) =~= rows);
    }
}

/// What rows of agents stand for: the first fault, or what each of them is.
pub open spec fn agents_in(rows: Seq<AgentRow>, storage: Storage) -> Result<Seq<AgentRun>, ErrorView>
    decreases rows.len(),
{
    if rows.len() == 0 {
        Ok(Seq::empty())
    } else {
        match agents_in(rows.drop_last(), storage) {
            Err(error) => Err(error),
            Ok(before) => match agent_fault(rows.last()) {
                Some(text) => Err(ErrorView::CorruptData(text)),
                None => Ok(before.push(agent_of(rows.last(), storage))),
            },
        }
    }
}

/// What an answer with rows of agents stands for; without a database there are none.
pub open spec fn agents_fetched(fetch: Fetch<AgentRow>, storage: Storage) -> Result<
    Seq<AgentRun>,
    ErrorView,
> {
    match fetch {
        Fetch::Absent => Ok(Seq::empty()),
        Fetch::Refused(error) => Err(error@),
        Fetch::Rows { rows, failure } => match agents_in(rows@, storage) {
            Err(error) => Err(error),
            Ok(found) => match failure {
                Some(failure) => Err(reported(failure)),
                None => Ok(found),
            },
        },
    }
}

/// Once a row of agents is faulty, the rows behind it do not matter.
pub proof fn lemma_agents_fault(rows: Seq<AgentRow>, storage: Storage, n: int)
    requires
        0 <= n <= rows.len(),
        agents_in(rows.take(n), storage) is Err,
    ensures
        agents_in(rows, storage) == agents_in(rows.take(n), storage),
    decreases rows.len() - n,
{
    if n < rows.len() {
        assert(rows.take(n + 1).drop_last() =~= rows.take(n));
        lemma_agents_fault(rows, storage, n + 1);
    } else {
        assert(rows.take(n) =~= rows);
    }
}

/// What is wrong with a row that holds the state of a command.
pub open spec fn process_state_fault(row: ProcessStateRow) -> Option<Seq<char>> {
    or_fault(data_fault(row.id, "process id"@), state_fault(row.state))
}

/// The state that such a row holds, where nothing is wrong with it.
pub open spec fn process_state_of(row: ProcessStateRow) -> (i64, ProcessState) {
    (row.id->Ok_0, lifecycle_of(row.state)->0)
}

/// What is wrong with a row that holds the status of an agent.
pub open spec fn agent_status_fault(row: AgentStatusRow) -> Option<Seq<char>> {
    or_fault(
        data_fault(row.id, "agent id"@),
        or_fault(
            fault_unless(row.id->Ok_0 > 0, "invalid agent id "@ + signed(row.id->Ok_0 as int)),
            agent_state_fault(row.state),
        ),
    )
}

/// The status that such a row holds, where nothing is wrong with it.
pub open spec fn agent_status_of(row: AgentStatusRow) -> (i64, AgentStatus, bool) {
    (row.id->Ok_0, agent_state_of(row.state).0, agent_state_of(row.state).1)
}

/// What rows of states stand for: the first fault, or what each of them is.
pub open spec fn process_states_in(rows: Seq<ProcessStateRow>) -> Result<
    Seq<(i64, ProcessState)>,
    ErrorView,
>
    decreases rows.len(),
{
    if rows.len() == 0 {
        Ok(Seq::empty())
    } else {
        match process_states_in(rows.drop_last()) {
            Err(error) => Err(error),
            Ok(before) => match process_state_fault(rows.last()) {
                Some(text) => Err(ErrorView::CorruptData(text)),
                None => Ok(before.push(process_state_of(rows.last()))),
            },
        }
    }
}

/// What an answer with rows of states stands for; without a database there are none.
pub open spec fn process_states_fetched(fetch: Fetch<ProcessStateRow>) -> Result<
    Seq<(i64, ProcessState)>,
    ErrorView,
> {
    match fetch {
        Fetch::Absent => Ok(Seq::empty()),
        Fetch::Refused(error) => Err(error@),
        Fetch::Rows { rows, failure } => match process_states_in(rows@) {
            Err(error) => Err(error),
            Ok(found) => match failure {
                Some(failure) => Err(reported(failure)),
                None => Ok(found),
            },
        },
    }
}

/// Once a row of states is faulty, the rows behind it do not matter.
pub proof fn lemma_process_states_fault(rows: Seq<ProcessStateRow>, n: int)
    requires
        0 <= n <= rows.len(),
        process_states_in(rows.take(n)) is Err,
    ensures
        process_states_in(rows) == process_states_in(rows.take(n)),
    decreases rows.len() - n,
{
    if n < rows.len() {
        assert(rows.take(n + 1).drop_last() =~= rows.take(n));
        lemma_process_states_fault(rows, n + 1);
    } else {
        assert(rows.take(n) =~= rows);
    }
}

/// What rows of statuses stand for: the first fault, or what each of them is.
pub open spec fn agent_states_in(rows: Seq<AgentStatusRow>) -> Result<
    Seq<(i64, AgentStatus, bool)>,
    ErrorView,
>
    decreases rows.len(),
{
    if rows.len() == 0 {
        Ok(Seq::empty())
    } else {
        match agent_states_in(rows.drop_last()) {
            Err(error) => Err(error),
            Ok(before) => match agent_status_fault(rows.last()) {
                Some(text) => Err(ErrorView::CorruptData(text)),
                None => Ok(before.push(agent_status_of(rows.last()))),
            },
        }
    }
}

/// What an answer with rows of statuses stands for; without a database there are none.
pub open spec fn agent_states_fetched(fetch: Fetch<AgentStatusRow>) -> Result<
    Seq<(i64, AgentStatus, bool)>,
    ErrorView,
> {
    match fetch {
        Fetch::Absent => Ok(Seq::empty()),
        Fetch::Refused(error) => Err(error@),
        Fetch::Rows { rows, failure } => match agent_states_in(rows@) {
            Err(error) => Err(error),
            Ok(found) => match failure {
                Some(failure) => Err(reported(failure)),
                None => Ok(found),
            },
        },
    }
}

/// Once a row of statuses is faulty, the rows behind it do not matter.
pub proof fn lemma_agent_states_fault(rows: Seq<AgentStatusRow>, n: int)
    requires
        0 <= n <= rows.len(),
        agent_states_in(rows.take(n)) is Err,
    ensures
        agent_states_in(rows) == agent_states_in(rows.take(n)),
    decreases rows.len() - n,
{
    if n < rows.len() {
        assert(rows.take(n + 1).drop_last() =~= rows.take(n));
        lemma_agent_states_fault(rows, n + 1);
    } else {
        assert(rows.take(n) =~= rows);
    }
}

/// The first of several numbers for which no state was found.
pub open spec fn missing_process(ids: Seq<i64>, found: Seq<(i64, ProcessState)>) -> Option<i64>
    decreases ids.len(),
{
    if ids.len() == 0 {
        None
    } else {
        let before = missing_process(ids.drop_last(), found);
        if before is Some {
            before
        } else if has_process(found, ids.last()) {
            None
        } else {
            Some(ids.last())
        }
    }
}

/// Whether a state was found for a number.
pub open spec fn has_process(found: Seq<(i64, ProcessState)>, id: i64) -> bool {
    exists|i: int| 0 <= i < found.len() && (#[trigger] found[i]).0 == id
}

/// What an answer says about the commands with the given numbers: something about
/// each of them, or an error. Without a database none of them exists.
pub open spec fn process_states_answered(
    ids: Seq<i64>,
    fetch: Fetch<ProcessStateRow>,
) -> Result<
    Seq<(i64, ProcessState)>,
    ErrorView,
> {
    if ids.len() == 0 {
        Ok(Seq::empty())
    } else if fetch is Absent {
        Err(ErrorView::NotFound(ids[0]))
    } else {
        match process_states_fetched(fetch) {
            Err(error) => Err(error),
            Ok(found) => match missing_process(ids, found) {
                Some(id) => Err(ErrorView::NotFound(id)),
                None => Ok(found),
            },
        }
    }
}

proof fn lemma_missing_process(ids: Seq<i64>, found: Seq<(i64, ProcessState)>, n: int)
    requires
        0 <= n <= ids.len(),
        missing_process(ids.take(n), found) is Some,
    ensures
        missing_process(ids, found) == missing_process(ids.take(n), found),
    decreases ids.len() - n,
{
    if n < ids.len() {
        assert(ids.take(n + 1).drop_last() =~= ids.take(n));
        lemma_missing_process(ids, found, n + 1);
    } else {
        assert(ids.take(n) =~= ids);
    }
}

pub(crate) fn found_process(found: &Vec<(i64, ProcessState)>, id: i64) -> (r: bool)
    ensures
        r == has_process(found@, id),
{
    let mut i: usize = 0;
    while i < found.len()
        invariant
            i <= found.len(),
            forall|j: int| 0 <= j < i ==> (#[trigger] found@[j]).0 != id,
        decreases found.len() - i,
    {
        if found[i].0 == id {
            assert(found@[i as int].0 == id);
            return true;
        }
        i = i + 1;
    }
    false
}

/// The first of several numbers for which nothing was found.
pub(crate) fn first_missing_process(
    ids: &Vec<i64>,
    found: &Vec<(i64, ProcessState)>,
) -> (r: Option<i64>)
    ensures
        r == missing_process(ids@, found@),
{
    let mut i: usize = 0;
    while i < ids.len()
        invariant
            i <= ids.len(),
            missing_process(ids@.take(i as int), found@) is None,
        decreases ids.len() - i,
    {
        proof {
            assert(ids@.take(i + 1).drop_last() =~= ids@.take(i as int));
        }
        if !found_process(found, ids[i]) {
            proof {
                lemma_missing_process(ids@, found@, i + 1);
            }
            return Some(ids[i]);
        }
        i = i + 1;
    }
    assert(ids@.take(ids@.len() as int) =~= ids@);
    None
}

/// The first of several numbers for which no status was found.
pub open spec fn missing_agent(ids: Seq<i64>, found: Seq<(i64, AgentStatus, bool)>) -> Option<i64>
    decreases ids.len(),
{
    if ids.len() == 0 {
        None
    } else {
        let before = missing_agent(ids.drop_last(), found);
        if before is Some {
            before
        } else if has_agent(found, ids.last()) {
            None
        } else {
            Some(ids.last())
        }
    }
}

/// Whether a status was found for a number.
pub open spec fn has_agent(found: Seq<(i64, AgentStatus, bool)>, id: i64) -> bool {
    exists|i: int| 0 <= i < found.len() && (#[trigger] found[i]).0 == id
}

/// What an answer says about the agents with the given numbers: something about
/// each of them, or an error. Without a database none of them exists.
pub open spec fn agent_states_answered(
    ids: Seq<i64>,
    fetch: Fetch<AgentStatusRow>,
) -> Result<
    Seq<(i64, AgentStatus, bool)>,
    ErrorView,
> {
    if ids.len() == 0 {
        Ok(Seq::empty())
    } else if fetch is Absent {
        Err(ErrorView::AgentNotFound(ids[0]))
    } else {
        match agent_states_fetched(fetch) {
            Err(error) => Err(error),
            Ok(found) => match missing_agent(ids, found) {
                Some(id) => Err(ErrorView::AgentNotFound(id)),
                None => Ok(found),
            },
        }
    }
}

proof fn lemma_missing_agent(ids: Seq<i64>, found: Seq<(i64, AgentStatus, bool)>, n: int)
    requires
        0 <= n <= ids.len(),
        missing_agent(ids.take(n), found) is Some,
    ensures
        missing_agent(ids, found) == missing_agent(ids.take(n), found),
    decreases ids.len() - n,
{
    if n < ids.len() {
        assert(ids.take(n + 1).drop_last() =~= ids.take(n));
        lemma_missing_agent(ids, found, n + 1);
    } else {
        assert(ids.take(n) =~= ids);
    }
}

pub(crate) fn found_agent(found: &Vec<(i64, AgentStatus, bool)>, id: i64) -> (r: bool)
    ensures
        r == has_agent(found@, id),
{
    let mut i: usize = 0;
    while i < found.len()
        invariant
            i <= found.len(),
            forall|j: int| 0 <= j < i ==> (#[trigger] found@[j]).0 != id,
        decreases found.len() - i,
    {
        if found[i].0 == id {
            assert(found@[i as int].0 == id);
            return true;
        }
        i = i + 1;
    }
    false
}

/// The first of several numbers for which nothing was found.
pub(crate) fn first_missing_agent(
    ids: &Vec<i64>,
    found: &Vec<(i64, AgentStatus, bool)>,
) -> (r: Option<i64>)
    ensures
        r == missing_agent(ids@, found@),
{
    let mut i: usize = 0;
    while i < ids.len()
        invariant
            i <= ids.len(),
            missing_agent(ids@.take(i as int), found@) is None,
        decreases ids.len() - i,
    {
        proof {
            assert(ids@.take(i + 1).drop_last() =~= ids@.take(i as int));
        }
        if !found_agent(found, ids[i]) {
            proof {
                lemma_missing_agent(ids@, found@, i + 1);
            }
            return Some(ids[i]);
        }
        i = i + 1;
    }
    assert(ids@.take(ids@.len() as int) =~= ids@);
    None
}

} // verus!
