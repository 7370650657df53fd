//! What can go wrong with the queue.
use crate::api::schema::{AgentQueueReceipt, ReceiptModel};
use crate::text::concat2;
use vstd::prelude::*;

verus! {

/// The kinds of storage trouble that a client can tell apart.
#[derive(Debug, Clone, Copy, PartialEq, Eq, Structural)]
pub enum StoreErrorKind {
    Busy,
    Full,
    Corrupt,
    Unavailable,
}

/// The API code of a kind of storage trouble.
pub open spec fn store_code(kind: StoreErrorKind) -> Seq<char> {
    match kind {
        StoreErrorKind::Busy => "store_busy"@,
        StoreErrorKind::Full => "store_full"@,
        StoreErrorKind::Corrupt => "store_corrupt"@,
        StoreErrorKind::Unavailable => "store_unavailable"@,
    }
}

impl StoreErrorKind {
    /// The API code of the kind.
    pub fn code(self) -> (r: &'static str)
        ensures
            r@ == store_code(self),
    {
        match self {
            StoreErrorKind::Busy => "store_busy",
            StoreErrorKind::Full => "store_full",
            StoreErrorKind::Corrupt => "store_corrupt",
            StoreErrorKind::Unavailable => "store_unavailable",
        }
    }
}

/// Storage trouble: its kind, and a message for people.
#[derive(Debug, PartialEq, Eq)]
pub struct StoreError {
    pub kind: StoreErrorKind,
    pub message: String,
}

/// The contents of a [`StoreError`].
#[verifier::ext_equal]
pub struct StoreErrorModel {
    pub kind: StoreErrorKind,
    pub message: Seq<char>,
}

impl View for StoreError {
    type V = StoreErrorModel;

    open spec fn view(&self) -> StoreErrorModel {
        StoreErrorModel { kind: self.kind, message: self.message@ }
    }
}

impl DeepView for StoreError {
    type V = StoreErrorModel;

    open spec fn deep_view(&self) -> StoreErrorModel {
        self@
    }
}

impl Clone for StoreError {
    fn clone(&self) -> (r: Self)
        ensures
            r == *self,
    {
        StoreError { kind: self.kind, message: self.message.clone() }
    }
}

impl StoreError {
    /// The error as it is shown to people.
    pub fn text(&self) -> (r: String)
        ensures
            r@ == self.message@,
    {
        self.message.clone()
    }
}

/// Why a queue operation was refused.
#[derive(Debug, PartialEq, Eq)]
pub enum QueueError {
    Store(StoreError),
    NotFound,
    IdempotencyConflict(AgentQueueReceipt),
    AlreadySubmitted(AgentQueueReceipt),
    InvalidTransition(AgentQueueReceipt),
}

/// The contents of a [`QueueError`].
#[verifier::ext_equal]
pub enum QueueErrorModel {
    Store(StoreErrorModel),
    NotFound,
    IdempotencyConflict(ReceiptModel),
    AlreadySubmitted(ReceiptModel),
    InvalidTransition(ReceiptModel),
}

impl View for QueueError {
    type V = QueueErrorModel;

    open spec fn view(&self) -> QueueErrorModel {
        match self {
            QueueError::Store(e) => QueueErrorModel::Store(e@),
            QueueError::NotFound => QueueErrorModel::NotFound,
            QueueError::IdempotencyConflict(r) => QueueErrorModel::IdempotencyConflict(r@),
            QueueError::AlreadySubmitted(r) => QueueErrorModel::AlreadySubmitted(r@),
            QueueError::InvalidTransition(r) => QueueErrorModel::InvalidTransition(r@),
        }
    }
}

impl DeepView for QueueError {
    type V = QueueErrorModel;

    open spec fn deep_view(&self) -> QueueErrorModel {
        self@
    }
}

impl vstd::std_specs::convert::FromSpecImpl<StoreError> for QueueError {
    open spec fn obeys_from_spec() -> bool {
        true
    }

    open spec fn from_spec(value: StoreError) -> Self {
        QueueError::Store(value)
    }
}

impl From<StoreError> for QueueError {
    fn from(value: StoreError) -> Self {
        QueueError::Store(value)
    }
}

/// The primary result codes of SQLite that the queue tells apart.
#[derive(Debug, Clone, Copy, PartialEq, Eq, Structural)]
pub enum SqliteCode {
    DatabaseBusy,
    DatabaseLocked,
    DiskFull,
    DatabaseCorrupt,
    NotADatabase,
    Other,
}

/// A failed database call: SQLite's code where SQLite itself failed, and the error's text.
#[derive(Debug, PartialEq, Eq)]
pub struct DatabaseError {
    pub code: Option<SqliteCode>,
    pub text: String,
}

/// The kind of trouble that a database code stands for.
pub open spec fn kind_of_code(code: Option<SqliteCode>) -> StoreErrorKind {
    match code {
        Some(SqliteCode::DatabaseBusy) | Some(SqliteCode::DatabaseLocked) => StoreErrorKind::Busy,
        Some(SqliteCode::DiskFull) => StoreErrorKind::Full,
        Some(SqliteCode::DatabaseCorrupt) | Some(SqliteCode::NotADatabase) =>
            StoreErrorKind::Corrupt,
        Some(SqliteCode::Other) | None => StoreErrorKind::Unavailable,
    }
}

/// The store error that a failed database call is reported as.
pub open spec fn database_trouble(code: Option<SqliteCode>, text: Seq<char>) -> StoreErrorModel {
    StoreErrorModel {
        kind: kind_of_code(code),
        message: "durable queue database error: "@ + text,
    }
}

/// The store error for a failed database call.
pub fn classify_sqlite_error(error: DatabaseError) -> (r: StoreError)
    ensures
        r@ == database_trouble(error.code, error.text@),
{
    let kind: StoreErrorKind = match error.code {
        Some(SqliteCode::DatabaseBusy) | Some(SqliteCode::DatabaseLocked) => StoreErrorKind::Busy,
        Some(SqliteCode::DiskFull) => StoreErrorKind::Full,
        Some(SqliteCode::DatabaseCorrupt) | Some(SqliteCode::NotADatabase) =>
            StoreErrorKind::Corrupt,
        Some(SqliteCode::Other) | None => StoreErrorKind::Unavailable,
    };
    StoreError { kind, message: concat2("durable queue database error: ", error.text.as_str()) }
}

/// The store error for a write that a constraint of the schema refuses.
pub(crate) fn constraint_error(text: &str) -> (r: StoreError)
    ensures
        r@ == database_trouble(Some(SqliteCode::Other), text@),
{
    classify_sqlite_error(
        DatabaseError { code: Some(SqliteCode::Other), text: text.to_owned() },
    )
}

} // verus!
