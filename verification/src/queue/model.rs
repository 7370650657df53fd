//! The queue as a mathematical object: its rows, its event log, and what each operation
//! makes of them.
use crate::api::schema::{AgentQueueState, ReceiptModel, law_state_names_differ, state_name};
use crate::clock::timestamp_text;
use crate::queue::error::{QueueErrorModel, SqliteCode, StoreErrorModel, database_trouble};
use vstd::prelude::*;

verus! {

/// The version that every receipt carries.
pub const RECEIPT_VERSION: u32 = 1;

/// Where a row stands: in one of the eight states, or under a stored name that is none of theirs.
#[verifier::ext_equal]
pub enum RowState {
    Queued,
    Blocked,
    Attempting,
    Submitted,
    Ambiguous,
    Acknowledged,
    Canceled,
    Orphaned,
    Other(Seq<char>),
}

/// A state, as a row has it.
pub open spec fn known(state: AgentQueueState) -> RowState {
    match state {
        AgentQueueState::Queued => RowState::Queued,
        AgentQueueState::Blocked => RowState::Blocked,
        AgentQueueState::Attempting => RowState::Attempting,
        AgentQueueState::Submitted => RowState::Submitted,
        AgentQueueState::Ambiguous => RowState::Ambiguous,
        AgentQueueState::Acknowledged => RowState::Acknowledged,
        AgentQueueState::Canceled => RowState::Canceled,
        AgentQueueState::Orphaned => RowState::Orphaned,
    }
}

/// The state that a row is in, where it is in one.
pub open spec fn shown_state(state: RowState) -> Option<AgentQueueState> {
    match state {
        RowState::Queued => Some(AgentQueueState::Queued),
        RowState::Blocked => Some(AgentQueueState::Blocked),
        RowState::Attempting => Some(AgentQueueState::Attempting),
        RowState::Submitted => Some(AgentQueueState::Submitted),
        RowState::Ambiguous => Some(AgentQueueState::Ambiguous),
        RowState::Acknowledged => Some(AgentQueueState::Acknowledged),
        RowState::Canceled => Some(AgentQueueState::Canceled),
        RowState::Orphaned => Some(AgentQueueState::Orphaned),
        RowState::Other(_) => None,
    }
}

/// What a stored name stands for.
pub open spec fn named_state(name: Seq<char>) -> RowState {
    if exists|state: AgentQueueState| name == #[trigger] state_name(state) {
        known(choose|state: AgentQueueState| name == #[trigger] state_name(state))
    } else {
        RowState::Other(name)
    }
}

/// The stored name of a state stands for it.
pub proof fn lemma_named_state(state: AgentQueueState)
    ensures
        named_state(state_name(state)) == known(state),
{
    let name = state_name(state);
    law_state_names_differ(
        state,
        choose|other: AgentQueueState| name == #[trigger] state_name(other),
    );
}

/// A state that a row never leaves.
pub open spec fn is_settled_state(state: RowState) -> bool {
    state is Acknowledged || state is Canceled || state is Orphaned
}

/// A state in which the text may have reached the terminal without the agent having answered.
pub open spec fn is_inflight_state(state: RowState) -> bool {
    state is Attempting || state is Submitted || state is Ambiguous
}

/// A state in which the text has certainly not been handed to the terminal.
pub open spec fn is_waiting_state(state: RowState) -> bool {
    state is Queued || state is Blocked
}

/// One row of the queue.
#[verifier::ext_equal]
pub struct RowModel {
    pub queue_id: Seq<char>,
    pub instance_id: Seq<char>,
    pub idempotency_key: Seq<char>,
    pub text: Seq<char>,
    pub state: RowState,
    pub attempts: i64,
    pub block_reason: Option<Seq<char>>,
    pub last_error: Option<Seq<char>>,
    pub pty_epoch: Option<Seq<char>>,
    pub created_at_ms: i64,
    pub updated_at_ms: i64,
}

/// One entry of the event log: a row has come into a state.
#[verifier::ext_equal]
pub struct EventModel {
    pub queue_id: Seq<char>,
    pub instance_id: Seq<char>,
    pub state: RowState,
    pub created_at_ms: i64,
}

/// The queue: its rows in the order in which they were enqueued, and its event log.
#[verifier::ext_equal]
pub struct QueueModel {
    pub rows: Seq<RowModel>,
    pub events: Seq<EventModel>,
}

/// What enqueueing gives: a receipt, and whether the row was there before.
#[verifier::ext_equal]
pub struct OutcomeModel {
    pub receipt: ReceiptModel,
    pub duplicate: bool,
}

pub type ReceiptResult = Result<ReceiptModel, QueueErrorModel>;

pub type ListResult = Result<Seq<ReceiptModel>, QueueErrorModel>;

pub type ClaimResult = Result<Option<(ReceiptModel, Seq<char>)>, QueueErrorModel>;

/// The first index whose element satisfies `p`.
pub open spec fn first_where<A>(s: Seq<A>, p: spec_fn(A) -> bool) -> Option<int>
    decreases s.len(),
{
    if s.len() == 0 {
        None
    } else {
        match first_where(s.drop_last(), p) {
            Some(i) => Some(i),
            None => if p(s.last()) {
                Some(s.len() - 1)
            } else {
                None
            },
        }
    }
}

/// `f(i)` for each `i` below `n` with `p(i)`, in increasing order of `i`.
pub open spec fn gather<A>(n: nat, p: spec_fn(int) -> bool, f: spec_fn(int) -> A) -> Seq<A>
    decreases n,
{
    if n == 0 {
        Seq::empty()
    } else {
        let rest = gather((n - 1) as nat, p, f);
        if p(n - 1) {
            rest.push(f(n - 1))
        } else {
            rest
        }
    }
}

pub proof fn lemma_first_where_is<A>(s: Seq<A>, p: spec_fn(A) -> bool, i: int)
    requires
        0 <= i < s.len(),
        p(s[i]),
        forall|j: int| 0 <= j < i ==> !p(#[trigger] s[j]),
    ensures
        first_where(s, p) == Some(i),
    decreases s.len(),
{
    if i == s.len() - 1 {
        assert forall|j: int| 0 <= j < s.drop_last().len() implies !p(
            #[trigger] s.drop_last()[j],
        ) by {
            assert(s.drop_last()[j] == s[j]);
        }
        lemma_first_where_none(s.drop_last(), p);
    } else {
        assert forall|j: int| 0 <= j < i implies !p(#[trigger] s.drop_last()[j]) by {
            assert(s.drop_last()[j] == s[j]);
        }
        assert(s.drop_last()[i] == s[i]);
        lemma_first_where_is(s.drop_last(), p, i);
    }
}

pub proof fn lemma_first_where_none<A>(s: Seq<A>, p: spec_fn(A) -> bool)
    requires
        forall|j: int| 0 <= j < s.len() ==> !p(#[trigger] s[j]),
    ensures
        first_where(s, p) is None,
    decreases s.len(),
{
    if s.len() > 0 {
        assert forall|j: int| 0 <= j < s.drop_last().len() implies !p(
            #[trigger] s.drop_last()[j],
        ) by {
            assert(s.drop_last()[j] == s[j]);
        }
        lemma_first_where_none(s.drop_last(), p);
    }
}

/// What `first_where` finds is the first match; what it does not find is not there.
pub proof fn lemma_first_where<A>(s: Seq<A>, p: spec_fn(A) -> bool)
    ensures
        match first_where(s, p) {
            Some(i) => 0 <= i < s.len() && p(s[i]) && forall|j: int|
                0 <= j < i ==> !p(#[trigger] s[j]),
            None => forall|j: int| 0 <= j < s.len() ==> !p(#[trigger] s[j]),
        },
    decreases s.len(),
{
    if s.len() > 0 {
        let init = s.drop_last();
        lemma_first_where(init, p);
        assert forall|j: int| 0 <= j < init.len() implies init[j] == #[trigger] s[j] by {}
        match first_where(s, p) {
            Some(i) => {
                assert forall|j: int| 0 <= j < i implies !p(#[trigger] s[j]) by {
                    assert(init[j] == s[j]);
                }
                if first_where(init, p) is Some {
                    assert(init[i] == s[i]);
                }
            },
            None => {
                assert forall|j: int| 0 <= j < s.len() implies !p(#[trigger] s[j]) by {
                    if j < init.len() {
                        assert(init[j] == s[j]);
                    }
                }
            },
        }
    }
}

/// Only what `p` and `f` say below `n` matters.
pub proof fn lemma_gather_same<A>(
    n: nat,
    p: spec_fn(int) -> bool,
    f: spec_fn(int) -> A,
    g: spec_fn(int) -> A,
)
    requires
        forall|i: int| 0 <= i < n && #[trigger] p(i) ==> f(i) == g(i),
    ensures
        gather(n, p, f) == gather(n, p, g),
    decreases n,
{
    if n > 0 {
        lemma_gather_same((n - 1) as nat, p, f, g);
        assert(p(n - 1) ==> f(n - 1) == g(n - 1));
    }
}

/// Rows by their queue id.
pub open spec fn by_id(queue_id: Seq<char>) -> spec_fn(RowModel) -> bool {
    |row: RowModel| row.queue_id == queue_id
}

/// Rows by their recipient and idempotency key.
pub open spec fn by_key(instance_id: Seq<char>, key: Seq<char>) -> spec_fn(RowModel) -> bool {
    |row: RowModel| row.instance_id == instance_id && row.idempotency_key == key
}

/// Rows of an instance that the agent is being given, or has been given, right now.
pub open spec fn being_delivered(instance_id: Seq<char>) -> spec_fn(RowModel) -> bool {
    |row: RowModel|
        row.instance_id == instance_id && (row.state is Attempting || row.state is Submitted)
}

/// Rows of an instance that a delivery may take up.
pub open spec fn claimable(instance_id: Seq<char>) -> spec_fn(RowModel) -> bool {
    |row: RowModel|
        row.instance_id == instance_id && (is_waiting_state(row.state) || row.state is Ambiguous)
}

/// The attempt count that a receipt shows.
pub open spec fn shown_attempts(attempts: i64) -> u32 {
    if 0 <= attempts <= u32::MAX {
        attempts as u32
    } else {
        u32::MAX
    }
}

/// The receipt for a row that is in a state.
pub open spec fn receipt_of(row: RowModel) -> ReceiptModel {
    ReceiptModel {
        version: RECEIPT_VERSION,
        queue_id: row.queue_id,
        instance_id: row.instance_id,
        idempotency_key: row.idempotency_key,
        state: shown_state(row.state)->0,
        attempts: shown_attempts(row.attempts),
        block_reason: row.block_reason,
        last_error: row.last_error,
        pty_epoch: row.pty_epoch,
        created_at: timestamp_text(row.created_at_ms),
        updated_at: timestamp_text(row.updated_at_ms),
    }
}

/// The error text for a stored state that is not one.
pub open spec fn bad_state_text(state: Seq<char>) -> Seq<char> {
    "Conversion error from type Text at index: 3, invalid queue state "@ + state
}

/// A stored state that is not one.
pub open spec fn bad_state_trouble(state: Seq<char>) -> StoreErrorModel {
    database_trouble(None, bad_state_text(state))
}

/// What reading a row gives: its receipt, or an error where its state is not one.
pub open spec fn read_row(row: RowModel) -> ReceiptResult {
    match row.state {
        RowState::Other(name) => Err(QueueErrorModel::Store(bad_state_trouble(name))),
        _ => Ok(receipt_of(row)),
    }
}

/// The log entry for a row that came into its state at `now`.
pub open spec fn event_of(row: RowModel, now: i64) -> EventModel {
    EventModel {
        queue_id: row.queue_id,
        instance_id: row.instance_id,
        state: row.state,
        created_at_ms: now,
    }
}

/// A queue with nothing in it.
pub open spec fn empty_queue() -> QueueModel {
    QueueModel { rows: Seq::empty(), events: Seq::empty() }
}

/// `q` with row `i` replaced by `row`, and the change logged.
pub open spec fn put_row(q: QueueModel, i: int, row: RowModel, now: i64) -> QueueModel {
    QueueModel { rows: q.rows.update(i, row), events: q.events.push(event_of(row, now)) }
}

/// A new row.
pub open spec fn new_row(
    queue_id: Seq<char>,
    instance_id: Seq<char>,
    key: Seq<char>,
    text: Seq<char>,
    now: i64,
) -> RowModel {
    RowModel {
        queue_id,
        instance_id,
        idempotency_key: key,
        text,
        state: RowState::Queued,
        attempts: 0,
        block_reason: None,
        last_error: None,
        pty_epoch: None,
        created_at_ms: now,
        updated_at_ms: now,
    }
}

/// A row with a queue id that is taken.
pub open spec fn taken_id_trouble() -> StoreErrorModel {
    database_trouble(
        Some(SqliteCode::Other),
        "UNIQUE constraint failed: agent_queue.queue_id"@,
    )
}

/// A second row of an instance in flight.
pub open spec fn second_inflight_trouble() -> StoreErrorModel {
    database_trouble(
        Some(SqliteCode::Other),
        "UNIQUE constraint failed: agent_queue.instance_id"@,
    )
}

/// An attempt count that has left the integers.
pub open spec fn attempts_trouble() -> StoreErrorModel {
    database_trouble(None, "Invalid column type Real at index: 4, name: attempts"@)
}

/// Enqueueing `text` for `instance_id` under `key`, where `queue_id` is the id for a new row.
///
/// A known key gives the row that has it, if it can be read and the text is the same, and is
/// refused if not. A new key appends a row.
pub open spec fn enqueue_effect(
    q: QueueModel,
    instance_id: Seq<char>,
    key: Seq<char>,
    text: Seq<char>,
    queue_id: Seq<char>,
    now: i64,
) -> (QueueModel, Result<OutcomeModel, QueueErrorModel>) {
    match first_where(q.rows, by_key(instance_id, key)) {
        Some(i) => match read_row(q.rows[i]) {
            Err(e) => (q, Err(e)),
            Ok(receipt) => if q.rows[i].text == text {
                (q, Ok(OutcomeModel { receipt, duplicate: true }))
            } else {
                (q, Err(QueueErrorModel::IdempotencyConflict(receipt)))
            },
        },
        None => if first_where(q.rows, by_id(queue_id)) is Some {
            (q, Err(QueueErrorModel::Store(taken_id_trouble())))
        } else {
            let row = new_row(queue_id, instance_id, key, text, now);
            (
                QueueModel { rows: q.rows.push(row), events: q.events.push(event_of(row, now)) },
                Ok(OutcomeModel { receipt: receipt_of(row), duplicate: false }),
            )
        },
    }
}

/// The receipt of the row `queue_id`.
pub open spec fn get_effect(q: QueueModel, queue_id: Seq<char>) -> ReceiptResult {
    match first_where(q.rows, by_id(queue_id)) {
        Some(i) => read_row(q.rows[i]),
        None => Err(QueueErrorModel::NotFound),
    }
}

/// A row that a listing with these filters shows.
pub open spec fn is_listed(
    row: RowModel,
    instance_id: Option<Seq<char>>,
    state: Option<AgentQueueState>,
) -> bool {
    &&& instance_id matches Some(wanted) ==> row.instance_id == wanted
    &&& state matches Some(wanted) ==> row.state == known(wanted)
}

/// A row that a listing with these filters selects and cannot read.
pub open spec fn stops_listing(
    instance_id: Option<Seq<char>>,
    state: Option<AgentQueueState>,
) -> spec_fn(RowModel) -> bool {
    |row: RowModel| is_listed(row, instance_id, state) && row.state is Other
}

/// The receipts of the rows that pass the filters, in the order of enqueueing.
pub open spec fn listed_receipts(
    q: QueueModel,
    instance_id: Option<Seq<char>>,
    state: Option<AgentQueueState>,
) -> Seq<ReceiptModel> {
    gather(
        q.rows.len(),
        |i: int| is_listed(q.rows[i], instance_id, state),
        |i: int| receipt_of(q.rows[i]),
    )
}

/// Listing the rows that pass the filters. The first of them that cannot be read is an error.
pub open spec fn list_effect(
    q: QueueModel,
    instance_id: Option<Seq<char>>,
    state: Option<AgentQueueState>,
) -> ListResult {
    match first_where(q.rows, stops_listing(instance_id, state)) {
        Some(i) => Err(QueueErrorModel::Store(bad_state_trouble(q.rows[i].state->Other_0))),
        None => Ok(listed_receipts(q, instance_id, state)),
    }
}

/// The row after it was settled in the terminal state `target`.
pub open spec fn settled_row(row: RowModel, target: AgentQueueState, now: i64) -> RowModel {
    RowModel { state: known(target), block_reason: None, updated_at_ms: now, ..row }
}

/// The moves into a terminal state that a request may make: waiting rows are canceled, rows in
/// flight are acknowledged.
pub open spec fn may_settle(from: RowState, target: AgentQueueState) -> bool {
    match target {
        AgentQueueState::Canceled => is_waiting_state(from),
        AgentQueueState::Acknowledged => is_inflight_state(from),
        _ => false,
    }
}

/// Settling the row `queue_id` in `target`. A row that is there already stays as it is.
pub open spec fn settle_effect(
    q: QueueModel,
    queue_id: Seq<char>,
    target: AgentQueueState,
    now: i64,
) -> (QueueModel, ReceiptResult) {
    match first_where(q.rows, by_id(queue_id)) {
        None => (q, Err(QueueErrorModel::NotFound)),
        Some(i) => {
            let row = q.rows[i];
            if row.state is Other {
                (q, read_row(row))
            } else if row.state == known(target) {
                (q, Ok(receipt_of(row)))
            } else if may_settle(row.state, target) {
                let settled = settled_row(row, target, now);
                (put_row(q, i, settled, now), Ok(receipt_of(settled)))
            } else if is_inflight_state(row.state) || row.state is Acknowledged {
                (q, Err(QueueErrorModel::AlreadySubmitted(receipt_of(row))))
            } else {
                (q, Err(QueueErrorModel::InvalidTransition(receipt_of(row))))
            }
        },
    }
}

/// Canceling: promised only for a row that has not been handed to the terminal.
pub open spec fn cancel_effect(q: QueueModel, queue_id: Seq<char>, now: i64) -> (
    QueueModel,
    ReceiptResult,
) {
    match first_where(q.rows, by_id(queue_id)) {
        None => (q, Err(QueueErrorModel::NotFound)),
        Some(i) => {
            let row = q.rows[i];
            if row.state is Other {
                (q, read_row(row))
            } else if row.state is Canceled {
                (q, Ok(receipt_of(row)))
            } else if is_waiting_state(row.state) {
                let settled = settled_row(row, AgentQueueState::Canceled, now);
                (put_row(q, i, settled, now), Ok(receipt_of(settled)))
            } else if row.state is Orphaned {
                (q, Err(QueueErrorModel::InvalidTransition(receipt_of(row))))
            } else {
                (q, Err(QueueErrorModel::AlreadySubmitted(receipt_of(row))))
            }
        },
    }
}

/// Acknowledging: only a row that may have reached the terminal can be acknowledged.
pub open spec fn acknowledge_effect(q: QueueModel, queue_id: Seq<char>, now: i64) -> (
    QueueModel,
    ReceiptResult,
) {
    match first_where(q.rows, by_id(queue_id)) {
        None => (q, Err(QueueErrorModel::NotFound)),
        Some(i) => {
            let row = q.rows[i];
            if row.state is Other {
                (q, read_row(row))
            } else if row.state is Acknowledged {
                (q, Ok(receipt_of(row)))
            } else if is_inflight_state(row.state) {
                let settled = settled_row(row, AgentQueueState::Acknowledged, now);
                (put_row(q, i, settled, now), Ok(receipt_of(settled)))
            } else {
                (q, Err(QueueErrorModel::InvalidTransition(receipt_of(row))))
            }
        },
    }
}

/// The moves that an update may make: waiting rows to blocked, and a delivery attempt to its end.
pub open spec fn may_update(from: RowState, target: AgentQueueState) -> bool {
    match target {
        AgentQueueState::Blocked => is_waiting_state(from),
        AgentQueueState::Submitted | AgentQueueState::Ambiguous => from is Attempting,
        _ => false,
    }
}

/// The row after an update. Its PTY epoch stays where none is given.
pub open spec fn updated_row(
    row: RowModel,
    target: AgentQueueState,
    block_reason: Option<Seq<char>>,
    last_error: Option<Seq<char>>,
    pty_epoch: Option<Seq<char>>,
    counted: bool,
    now: i64,
) -> RowModel {
    RowModel {
        state: known(target),
        block_reason,
        last_error,
        pty_epoch: if pty_epoch is Some {
            pty_epoch
        } else {
            row.pty_epoch
        },
        attempts: if counted {
            (row.attempts + 1) as i64
        } else {
            row.attempts
        },
        updated_at_ms: now,
        ..row
    }
}

/// Moving the row `queue_id` to `target`, where that is a move that an update may make.
pub open spec fn update_effect(
    q: QueueModel,
    queue_id: Seq<char>,
    target: AgentQueueState,
    block_reason: Option<Seq<char>>,
    last_error: Option<Seq<char>>,
    pty_epoch: Option<Seq<char>>,
    counted: bool,
    now: i64,
) -> (QueueModel, ReceiptResult) {
    match first_where(q.rows, by_id(queue_id)) {
        None => (q, Err(QueueErrorModel::NotFound)),
        Some(i) => {
            let row = q.rows[i];
            if row.state is Other {
                (q, read_row(row))
            } else if !may_update(row.state, target) {
                (q, Err(QueueErrorModel::InvalidTransition(receipt_of(row))))
            } else if counted && row.attempts == i64::MAX {
                (q, Err(QueueErrorModel::Store(attempts_trouble())))
            } else {
                let updated = updated_row(
                    row,
                    target,
                    block_reason,
                    last_error,
                    pty_epoch,
                    counted,
                    now,
                );
                (put_row(q, i, updated, now), Ok(receipt_of(updated)))
            }
        },
    }
}

/// Marking a waiting row as blocked. Saying the same again changes nothing.
pub open spec fn set_blocked_effect(
    q: QueueModel,
    queue_id: Seq<char>,
    reason: Seq<char>,
    now: i64,
) -> (QueueModel, ReceiptResult) {
    match first_where(q.rows, by_id(queue_id)) {
        Some(i) if q.rows[i].state is Blocked && q.rows[i].block_reason == Some(reason) => (
            q,
            Ok(receipt_of(q.rows[i])),
        ),
        _ => update_effect(
            q,
            queue_id,
            AgentQueueState::Blocked,
            Some(reason),
            None,
            None,
            false,
            now,
        ),
    }
}

/// The text was written to the terminal in the PTY epoch `pty_epoch`.
pub open spec fn mark_submitted_effect(
    q: QueueModel,
    queue_id: Seq<char>,
    pty_epoch: Seq<char>,
    now: i64,
) -> (QueueModel, ReceiptResult) {
    update_effect(
        q,
        queue_id,
        AgentQueueState::Submitted,
        None,
        None,
        Some(pty_epoch),
        false,
        now,
    )
}

/// The delivery attempt failed, and how much of the text was written is not known.
pub open spec fn mark_ambiguous_effect(
    q: QueueModel,
    queue_id: Seq<char>,
    error: Seq<char>,
    pty_epoch: Option<Seq<char>>,
    now: i64,
) -> (QueueModel, ReceiptResult) {
    update_effect(
        q,
        queue_id,
        AgentQueueState::Ambiguous,
        None,
        Some(error),
        pty_epoch,
        false,
        now,
    )
}

/// The row after a delivery took it up.
pub open spec fn claimed_row(row: RowModel, now: i64) -> RowModel {
    RowModel {
        state: RowState::Attempting,
        attempts: (row.attempts + 1) as i64,
        block_reason: None,
        last_error: None,
        updated_at_ms: now,
        ..row
    }
}

/// A row of the same instance as row `i`, other than it, is in flight.
pub open spec fn other_inflight(rows: Seq<RowModel>, i: int) -> bool {
    exists|j: int|
        0 <= j < rows.len() && j != i && (#[trigger] rows[j]).instance_id == rows[i].instance_id
            && is_inflight_state(rows[j].state)
}

/// Taking up the next row of an instance: the earliest one that is waiting or ambiguous,
/// unless the instance has a delivery under way.
pub open spec fn claim_effect(q: QueueModel, instance_id: Seq<char>, now: i64) -> (
    QueueModel,
    ClaimResult,
) {
    if first_where(q.rows, being_delivered(instance_id)) is Some {
        (q, Ok(None))
    } else {
        match first_where(q.rows, claimable(instance_id)) {
            None => (q, Ok(None)),
            Some(i) => if other_inflight(q.rows, i) {
                (q, Err(QueueErrorModel::Store(second_inflight_trouble())))
            } else if q.rows[i].attempts == i64::MAX {
                (q, Err(QueueErrorModel::Store(attempts_trouble())))
            } else {
                let row = claimed_row(q.rows[i], now);
                (put_row(q, i, row, now), Ok(Some((receipt_of(row), row.text))))
            },
        }
    }
}

/// The row after a restart found it in the middle of a delivery.
pub open spec fn interrupted_row(row: RowModel, now: i64) -> RowModel {
    RowModel {
        state: RowState::Ambiguous,
        last_error: Some("server_restarted_during_submission"@),
        updated_at_ms: now,
        ..row
    }
}

/// A restart: whoever was being delivered to may or may not have got the text.
pub open spec fn recover_effect(q: QueueModel, now: i64) -> QueueModel {
    QueueModel {
        rows: q.rows.map_values(
            |row: RowModel|
                if row.state is Attempting {
                    interrupted_row(row, now)
                } else {
                    row
                },
        ),
        events: q.events + gather(
            q.rows.len(),
            |i: int| q.rows[i].state is Attempting,
            |i: int| event_of(interrupted_row(q.rows[i], now), now),
        ),
    }
}

/// A row whose instance is gone before the row was settled.
pub open spec fn is_orphan(row: RowModel, known: Set<Seq<char>>) -> bool {
    !is_settled_state(row.state) && !(row.state is Other) && !known.contains(row.instance_id)
}

/// The row after it was orphaned.
pub open spec fn orphaned_row(row: RowModel, now: i64) -> RowModel {
    RowModel {
        state: RowState::Orphaned,
        block_reason: None,
        last_error: Some("agent_instance_replaced_or_closed"@),
        updated_at_ms: now,
        ..row
    }
}

/// Orphaning every unsettled row whose instance is not among `known`; row `i` at `times[i]`. The
/// rows are listed first, so nothing is orphaned while there is one that cannot be read.
pub open spec fn orphan_effect(q: QueueModel, known: Set<Seq<char>>, times: Seq<i64>) -> QueueModel {
    if list_effect(q, None, None) is Err {
        q
    } else {
        QueueModel {
            rows: Seq::new(
                q.rows.len(),
                |i: int|
                    if is_orphan(q.rows[i], known) {
                        orphaned_row(q.rows[i], times[i])
                    } else {
                        q.rows[i]
                    },
            ),
            events: q.events + gather(
                q.rows.len(),
                |i: int| is_orphan(q.rows[i], known),
                |i: int| event_of(orphaned_row(q.rows[i], times[i]), times[i]),
            ),
        }
    }
}

/// The receipts of the rows that [`orphan_effect`] orphans, in the order of enqueueing.
pub open spec fn orphaned_receipts(
    q: QueueModel,
    known: Set<Seq<char>>,
    times: Seq<i64>,
) -> ListResult {
    match list_effect(q, None, None) {
        Err(e) => Err(e),
        Ok(_) => Ok(
            gather(
                q.rows.len(),
                |i: int| is_orphan(q.rows[i], known),
                |i: int| receipt_of(orphaned_row(q.rows[i], times[i])),
            ),
        ),
    }
}

/// What the schema of the queue promises: ids are unique, a recipient has an idempotency key
/// once, an instance has at most one row in flight, counts are not negative, and every event
/// is about a row.
pub open spec fn schema_holds(q: QueueModel) -> bool {
    &&& forall|i: int, j: int|
        0 <= i < j < q.rows.len() ==> (#[trigger] q.rows[i]).queue_id != (
        #[trigger] q.rows[j]).queue_id
    &&& forall|i: int, j: int|
        0 <= i < j < q.rows.len() && (#[trigger] q.rows[i]).instance_id == (
        #[trigger] q.rows[j]).instance_id ==> q.rows[i].idempotency_key
            != q.rows[j].idempotency_key
    &&& forall|i: int, j: int|
        0 <= i < j < q.rows.len() && (#[trigger] q.rows[i]).instance_id == (
        #[trigger] q.rows[j]).instance_id ==> !(is_inflight_state(q.rows[i].state)
            && is_inflight_state(q.rows[j].state))
    &&& forall|i: int| 0 <= i < q.rows.len() ==> (#[trigger] q.rows[i]).attempts >= 0
    &&& forall|e: int| 0 <= e < q.events.len() ==> logged_row_exists(q, #[trigger] q.events[e])
}

/// The row that `event` is about is in the queue.
pub open spec fn logged_row_exists(q: QueueModel, event: EventModel) -> bool {
    exists|i: int|
        0 <= i < q.rows.len() && (#[trigger] q.rows[i]).queue_id == event.queue_id
            && q.rows[i].instance_id == event.instance_id
}

/// First in, first out: no row of an instance waits in front of one that is in flight.
pub open spec fn inflight_leads(q: QueueModel) -> bool {
    forall|i: int, j: int|
        0 <= i < j < q.rows.len() && (#[trigger] q.rows[i]).instance_id == (
        #[trigger] q.rows[j]).instance_id && is_waiting_state(q.rows[i].state)
            ==> !is_inflight_state(q.rows[j].state)
}

/// A queue as it should be: the schema holds, and deliveries keep the order of enqueueing.
pub open spec fn sound(q: QueueModel) -> bool {
    schema_holds(q) && inflight_leads(q)
}

} // verus!
