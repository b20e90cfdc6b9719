//! What can go wrong, and how it is worded.

use vstd::prelude::*;
use vstd::string::*;

use crate::agent::{status_text, AgentStatus};
use crate::text::{decimal, signed};

verus! {

/// Why a destination could not be reached.
#[derive(Debug)]
pub enum NavigationError {
    Unavailable(String),
    Invalid(String),
    Missing(String),
    Failed(String),
}

impl NavigationError {
    /// The wording.
    pub open spec fn wording(self) -> Seq<char> {
        match self {
            NavigationError::Unavailable(text) => text@,
            NavigationError::Invalid(text) => text@,
            NavigationError::Missing(text) => text@,
            NavigationError::Failed(text) => text@,
        }
    }

    /// The wording.
    pub fn message(&self) -> (r: String)
        ensures
            r@ == self.wording(),
    {
        match self {
            NavigationError::Unavailable(text) => text.clone(),
            NavigationError::Invalid(text) => text.clone(),
            NavigationError::Missing(text) => text.clone(),
            NavigationError::Failed(text) => text.clone(),
        }
    }
}

/// Why a request was not carried out.
#[derive(Debug)]
pub enum Error {
    NotFound(i64),
    Invalid(String),
    Environment(String),
    Incompatible(String),
    AlreadyFinished(i64),
    AlreadyAcknowledged(i64),
    StillRunning(i64),
    WrongStorage(i64),
    AgentNotFound(i64),
    InvalidAgentTransition { id: i64, from: AgentStatus, to: AgentStatus },
    AgentNotDone(i64),
    AgentWrongStorage(i64),
    ReadOnly,
    CorruptData(String),
    Busy(String),
    Database(String),
    Navigation(NavigationError),
}

/// An error with plain texts.
pub enum ErrorView {
    NotFound(i64),
    Invalid(Seq<char>),
    Environment(Seq<char>),
    Incompatible(Seq<char>),
    AlreadyFinished(i64),
    AlreadyAcknowledged(i64),
    StillRunning(i64),
    WrongStorage(i64),
    AgentNotFound(i64),
    InvalidAgentTransition { id: i64, from: AgentStatus, to: AgentStatus },
    AgentNotDone(i64),
    AgentWrongStorage(i64),
    ReadOnly,
    CorruptData(Seq<char>),
    Busy(Seq<char>),
    Database(Seq<char>),
    Navigation(NavigationErrorView),
}

/// A failed navigation with a plain text.
pub enum NavigationErrorView {
    Unavailable(Seq<char>),
    Invalid(Seq<char>),
    Missing(Seq<char>),
    Failed(Seq<char>),
}

impl View for NavigationError {
    type V = NavigationErrorView;

    open spec fn view(&self) -> NavigationErrorView {
        match *self {
            NavigationError::Unavailable(text) => NavigationErrorView::Unavailable(text@),
            NavigationError::Invalid(text) => NavigationErrorView::Invalid(text@),
            NavigationError::Missing(text) => NavigationErrorView::Missing(text@),
            NavigationError::Failed(text) => NavigationErrorView::Failed(text@),
        }
    }
}

impl View for Error {
    type V = ErrorView;

    open spec fn view(&self) -> ErrorView {
        match *self {
            Error::NotFound(id) => ErrorView::NotFound(id),
            Error::Invalid(text) => ErrorView::Invalid(text@),
            Error::Environment(text) => ErrorView::Environment(text@),
            Error::Incompatible(text) => ErrorView::Incompatible(text@),
            Error::AlreadyFinished(id) => ErrorView::AlreadyFinished(id),
            Error::AlreadyAcknowledged(id) => ErrorView::AlreadyAcknowledged(id),
            Error::StillRunning(id) => ErrorView::StillRunning(id),
            Error::WrongStorage(id) => ErrorView::WrongStorage(id),
            Error::AgentNotFound(id) => ErrorView::AgentNotFound(id),
            Error::InvalidAgentTransition { id, from, to } => ErrorView::InvalidAgentTransition {
                id,
                from,
                to,
            },
            Error::AgentNotDone(id) => ErrorView::AgentNotDone(id),
            Error::AgentWrongStorage(id) => ErrorView::AgentWrongStorage(id),
            Error::ReadOnly => ErrorView::ReadOnly,
            Error::CorruptData(text) => ErrorView::CorruptData(text@),
            Error::Busy(text) => ErrorView::Busy(text@),
            Error::Database(text) => ErrorView::Database(text@),
            Error::Navigation(error) => ErrorView::Navigation(error@),
        }
    }
}

/// A result with a plain error.
pub open spec fn plain<T>(r: Result<T, Error>) -> Result<T, ErrorView> {
    match r {
        Ok(value) => Ok(value),
        Err(error) => Err(error@),
    }
}

/// Why a statement failed, as far as it matters here.
#[derive(Clone, Copy, Debug, PartialEq, Eq, Structural)]
pub enum FailureCode {
    Busy,
    Locked,
    NotADatabase,
    Corrupt,
    ReadOnly,
    Other,
}

/// The failure of a statement.
#[derive(Debug)]
pub struct Failure {
    pub code: FailureCode,
    pub detail: String,
}

/// What the failure of a statement is reported as.
pub open spec fn reported(failure: Failure) -> ErrorView {
    match failure.code {
        FailureCode::Busy => ErrorView::Busy(failure.detail@),
        FailureCode::Locked => ErrorView::Busy(failure.detail@),
        FailureCode::NotADatabase => ErrorView::Incompatible(failure.detail@),
        FailureCode::Corrupt => ErrorView::Incompatible(failure.detail@),
        FailureCode::ReadOnly => ErrorView::ReadOnly,
        FailureCode::Other => ErrorView::Database(failure.detail@),
    }
}

/// Reports the failure of a statement.
pub fn map_error(failure: Failure) -> (r: Error)
    ensures
        r@ == reported(failure),
{
    match failure.code {
        FailureCode::Busy | FailureCode::Locked => Error::Busy(failure.detail),
        FailureCode::NotADatabase | FailureCode::Corrupt => Error::Incompatible(failure.detail),
        FailureCode::ReadOnly => Error::ReadOnly,
        FailureCode::Other => Error::Database(failure.detail),
    }
}

impl Error {
    /// Whether the error is the refusal of invalid input with the given text.
    pub open spec fn is_invalid(self, wording: Seq<char>) -> bool {
        self matches Error::Invalid(text) && text@ == wording
    }

    /// Whether the error is the rejection of stored data with the given text.
    pub open spec fn is_corrupt(self, wording: Seq<char>) -> bool {
        self matches Error::CorruptData(text) && text@ == wording
    }

    /// The wording of each error.
    pub open spec fn wording(self) -> Seq<char> {
        match self {
            Error::NotFound(id) => "no process with id "@ + signed(id as int),
            Error::Invalid(text) => text@,
            Error::Environment(text) => text@,
            Error::Incompatible(text) => "incompatible storage: "@ + text@,
            Error::AlreadyFinished(id) => "process "@ + signed(id as int)
                + " is already finished"@,
            Error::AlreadyAcknowledged(id) => "process "@ + signed(id as int)
                + " is already acknowledged"@,
            Error::StillRunning(id) => "process "@ + signed(id as int) + " is still running"@,
            Error::WrongStorage(id) => "process "@ + signed(id as int)
                + " belongs to different storage"@,
            Error::AgentNotFound(id) => "no agent with id "@ + signed(id as int),
            Error::InvalidAgentTransition { id, from, to } => "agent "@ + signed(id as int)
                + " cannot transition from "@ + status_text(from) + " to "@ + status_text(to),
            Error::AgentNotDone(id) => "agent "@ + signed(id as int) + " is not done"@,
            Error::AgentWrongStorage(id) => "agent "@ + signed(id as int)
                + " belongs to different storage"@,
            Error::ReadOnly => "storage is read-only"@,
            Error::CorruptData(text) => "corrupt data: "@ + text@,
            Error::Busy(text) => "storage unavailable: "@ + text@,
            Error::Database(text) => "database error: "@ + text@,
            Error::Navigation(error) => error.wording(),
        }
    }

    /// The wording of the error.
    pub fn message(&self) -> (r: String)
        ensures
            r@ == self.wording(),
    {
        proof {
            reveal_strlit("");
        }
        match self {
            Error::NotFound(id) => about("no process with id ", *id, ""),
            Error::Invalid(text) => text.clone(),
            Error::Environment(text) => text.clone(),
            Error::Incompatible(text) => "incompatible storage: ".to_owned().concat(text.as_str()),
            Error::AlreadyFinished(id) => about("process ", *id, " is already finished"),
            Error::AlreadyAcknowledged(id) => about("process ", *id, " is already acknowledged"),
            Error::StillRunning(id) => about("process ", *id, " is still running"),
            Error::WrongStorage(id) => about("process ", *id, " belongs to different storage"),
            Error::AgentNotFound(id) => about("no agent with id ", *id, ""),
            Error::InvalidAgentTransition { id, from, to } => {
                let mut out: String = about("agent ", *id, " cannot transition from ");
                out.append(from.as_str());
                out.append(" to ");
                out.append(to.as_str());
                out
            },
            Error::AgentNotDone(id) => about("agent ", *id, " is not done"),
            Error::AgentWrongStorage(id) => about("agent ", *id, " belongs to different storage"),
            Error::ReadOnly => "storage is read-only".to_owned(),
            Error::CorruptData(text) => "corrupt data: ".to_owned().concat(text.as_str()),
            Error::Busy(text) => "storage unavailable: ".to_owned().concat(text.as_str()),
            Error::Database(text) => "database error: ".to_owned().concat(text.as_str()),
            Error::Navigation(error) => error.message(),
        }
    }
}

/// A text about the item with a number.
pub fn about(before: &str, id: i64, after: &str) -> (r: String)
    ensures
        r@ == before@ + signed(id as int) + after@,
        after@.len() == 0 ==> r@ == before@ + signed(id as int),
{
    let mut out: String = before.to_owned();
    out.append(decimal(id).as_str());
    out.append(after);
    assert(after@.len() == 0 ==> out@ =~= before@ + signed(id as int));
    out
}

} // verus!
