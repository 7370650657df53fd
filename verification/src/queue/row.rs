//! Rows and log entries as the database stores them.
use crate::api::schema::{AgentQueueReceipt, AgentQueueState, clone_option, state_name};
use crate::clock::format_timestamp;
use crate::queue::error::{DatabaseError, StoreError, classify_sqlite_error};
use crate::queue::model::{
    EventModel, RECEIPT_VERSION, RowModel, RowState, bad_state_trouble, event_of, known,
    lemma_named_state, named_state, receipt_of, shown_attempts,
};
use crate::text::concat2;
use vstd::prelude::*;

verus! {

/// The columns of one row of the queue.
#[derive(Debug, PartialEq, Eq)]
pub struct StoredRow {
    pub queue_id: String,
    pub instance_id: String,
    pub idempotency_key: String,
    pub text: String,
    /// The stored name of the state.
    pub state: String,
    pub attempts: i64,
    pub block_reason: Option<String>,
    pub last_error: Option<String>,
    pub pty_epoch: Option<String>,
    pub created_at_ms: i64,
    pub updated_at_ms: i64,
}

impl View for StoredRow {
    type V = RowModel;

    open spec fn view(&self) -> RowModel {
        RowModel {
            queue_id: self.queue_id@,
            instance_id: self.instance_id@,
            idempotency_key: self.idempotency_key@,
            text: self.text@,
            state: named_state(self.state@),
            attempts: self.attempts,
            block_reason: self.block_reason.deep_view(),
            last_error: self.last_error.deep_view(),
            pty_epoch: self.pty_epoch.deep_view(),
            created_at_ms: self.created_at_ms,
            updated_at_ms: self.updated_at_ms,
        }
    }
}

impl Clone for StoredRow {
    fn clone(&self) -> (r: Self)
        ensures
            r == *self,
    {
        StoredRow {
            queue_id: self.queue_id.clone(),
            instance_id: self.instance_id.clone(),
            idempotency_key: self.idempotency_key.clone(),
            text: self.text.clone(),
            state: self.state.clone(),
            attempts: self.attempts,
            block_reason: clone_option(&self.block_reason),
            last_error: clone_option(&self.last_error),
            pty_epoch: clone_option(&self.pty_epoch),
            created_at_ms: self.created_at_ms,
            updated_at_ms: self.updated_at_ms,
        }
    }
}

/// The columns of one entry of the event log.
#[derive(Debug, PartialEq, Eq)]
pub struct QueueEvent {
    pub queue_id: String,
    pub instance_id: String,
    /// The stored name of the state.
    pub state: String,
    pub created_at_ms: i64,
}

impl View for QueueEvent {
    type V = EventModel;

    open spec fn view(&self) -> EventModel {
        EventModel {
            queue_id: self.queue_id@,
            instance_id: self.instance_id@,
            state: named_state(self.state@),
            created_at_ms: self.created_at_ms,
        }
    }
}

impl Clone for QueueEvent {
    fn clone(&self) -> (r: Self)
        ensures
            r == *self,
    {
        QueueEvent {
            queue_id: self.queue_id.clone(),
            instance_id: self.instance_id.clone(),
            state: self.state.clone(),
            created_at_ms: self.created_at_ms,
        }
    }
}

/// The stored name of `state`, to be put into a row.
pub(crate) fn stored_name(state: AgentQueueState) -> (r: String)
    ensures
        r@ == state_name(state),
        named_state(r@) == known(state),
{
    proof {
        lemma_named_state(state);
    }
    state.as_str().to_owned()
}

impl StoredRow {
    /// The state that the row is in, if its stored name is one.
    pub fn known_state(&self) -> (r: Option<AgentQueueState>)
        ensures
            match r {
                Some(state) => self@.state == known(state),
                None => self@.state == RowState::Other(self.state@),
            },
    {
        let state: Option<AgentQueueState> = AgentQueueState::parse(self.state.as_str());
        proof {
            if state is Some {
                lemma_named_state(state->0);
            }
        }
        state
    }

    /// The receipt for the row, which is in `state`.
    pub(crate) fn receipt_in(&self, state: AgentQueueState) -> (r: AgentQueueReceipt)
        requires
            self@.state == known(state),
        ensures
            r@ == receipt_of(self@),
    {
        AgentQueueReceipt {
            version: RECEIPT_VERSION,
            queue_id: self.queue_id.clone(),
            instance_id: self.instance_id.clone(),
            idempotency_key: self.idempotency_key.clone(),
            state,
            attempts: attempts_to_show(self.attempts),
            block_reason: clone_option(&self.block_reason),
            last_error: clone_option(&self.last_error),
            pty_epoch: clone_option(&self.pty_epoch),
            created_at: format_timestamp(self.created_at_ms),
            updated_at: format_timestamp(self.updated_at_ms),
        }
    }

    /// The log entry that says that the row came into its state at `now`.
    pub fn event(&self, now: i64) -> (r: QueueEvent)
        ensures
            r@ == event_of(self@, now),
    {
        QueueEvent {
            queue_id: self.queue_id.clone(),
            instance_id: self.instance_id.clone(),
            state: self.state.clone(),
            created_at_ms: now,
        }
    }
}

fn attempts_to_show(attempts: i64) -> (r: u32)
    ensures
        r == shown_attempts(attempts),
{
    if 0 <= attempts && attempts <= u32::MAX as i64 {
        attempts as u32
    } else {
        u32::MAX
    }
}

/// The receipt for a stored row. A state that is not one is a database error.
pub fn receipt_from_row(row: &StoredRow) -> (r: Result<AgentQueueReceipt, StoreError>)
    ensures
        match row@.state {
            RowState::Other(name) => r is Err && r->Err_0@ == bad_state_trouble(name),
            _ => r is Ok && r->Ok_0@ == receipt_of(row@),
        },
{
    match row.known_state() {
        Some(state) => Ok(row.receipt_in(state)),
        None => {
            let text: String = concat2(
                "Conversion error from type Text at index: 3, invalid queue state ",
                row.state.as_str(),
            );
            Err(classify_sqlite_error(DatabaseError { code: None, text }))
        },
    }
}

} // verus!
