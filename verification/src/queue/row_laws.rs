//! What each operation does to a row and tells of it, state by state.
use crate::api::schema::{
    AgentQueueReceipt, AgentQueueState, ReceiptModel, is_terminal_state, state_name,
};
use crate::clock::timestamp_text;
use crate::queue::changes::{ChangesModel, at_most, changes, is_logged, written};
use crate::queue::error::{
    QueueError, QueueErrorModel, SqliteCode, StoreError, StoreErrorKind, database_trouble,
    store_code,
};
use crate::queue::laws::{QueueOp, law_every_history_is_sound, law_list_shows_every_row, run};
use crate::queue::model::{
    EventModel, OutcomeModel, QueueModel, RowModel, RowState, acknowledge_effect, being_delivered,
    by_id, by_key, cancel_effect, claim_effect, claimable, empty_queue, enqueue_effect, event_of,
    first_where, gather, get_effect, interrupted_row, is_inflight_state, is_listed, is_orphan,
    known, lemma_first_where, lemma_first_where_is, lemma_first_where_none, lemma_named_state,
    list_effect, mark_ambiguous_effect, mark_submitted_effect, named_state, orphan_effect,
    orphaned_receipts, orphaned_row, other_inflight, receipt_of, recover_effect, set_blocked_effect,
    settle_effect, shown_state, stops_listing, update_effect,
};
use crate::queue::row::{QueueEvent, StoredRow};
use crate::queue::store::{
    EnqueueOutcome, claim_view, enqueue_view, list_view, loaded, receipt_view, receipts_view,
    text_set,
};
use vstd::prelude::*;

verus! {

/// The API's state `shown` is the one that the row is in.
pub open spec fn same_state(shown: AgentQueueState, state: RowState) -> bool {
    &&& shown is Queued <==> state is Queued
    &&& shown is Blocked <==> state is Blocked
    &&& shown is Attempting <==> state is Attempting
    &&& shown is Submitted <==> state is Submitted
    &&& shown is Ambiguous <==> state is Ambiguous
    &&& shown is Acknowledged <==> state is Acknowledged
    &&& shown is Canceled <==> state is Canceled
    &&& shown is Orphaned <==> state is Orphaned
}

/// The receipt tells what is in the row.
pub open spec fn tells(receipt: ReceiptModel, row: RowModel) -> bool {
    &&& receipt.version == 1
    &&& receipt.queue_id == row.queue_id
    &&& receipt.instance_id == row.instance_id
    &&& receipt.idempotency_key == row.idempotency_key
    &&& same_state(receipt.state, row.state)
    &&& 0 <= row.attempts <= 0xffff_ffff ==> receipt.attempts == row.attempts
    &&& !(0 <= row.attempts <= 0xffff_ffff) ==> receipt.attempts == 0xffff_ffff
    &&& receipt.block_reason == row.block_reason
    &&& receipt.last_error == row.last_error
    &&& receipt.pty_epoch == row.pty_epoch
    &&& receipt.created_at == timestamp_text(row.created_at_ms)
    &&& receipt.updated_at == timestamp_text(row.updated_at_ms)
}

/// The error says that the row's state is not one.
pub open spec fn tells_bad_state(e: QueueErrorModel, row: RowModel) -> bool {
    &&& row.state is Other
    &&& e is Store
    &&& e->Store_0.kind is Unavailable
    &&& e->Store_0.message == "durable queue database error: "@ + (
    "Conversion error from type Text at index: 3, invalid queue state "@ + row.state->Other_0)
}

/// No other row has the id of row `i`.
pub open spec fn has_its_id_alone(q: QueueModel, i: int) -> bool {
    &&& 0 <= i < q.rows.len()
    &&& forall|j: int|
        0 <= j < q.rows.len() && j != i ==> (#[trigger] q.rows[j]).queue_id != q.rows[i].queue_id
}

/// One entry was added to the log: that `row` came into its state at `now`.
pub open spec fn logs(q: QueueModel, next: QueueModel, row: RowModel, now: i64) -> bool {
    &&& next.events.len() == q.events.len() + 1
    &&& forall|e: int| 0 <= e < q.events.len() ==> next.events[e] == #[trigger] q.events[e]
    &&& next.events.last().queue_id == row.queue_id
    &&& next.events.last().instance_id == row.instance_id
    &&& next.events.last().state == row.state
    &&& next.events.last().created_at_ms == now
}

/// Row `i` became `row`, the others are as they were, and the log says so.
pub open spec fn changes_row(
    q: QueueModel,
    next: QueueModel,
    i: int,
    row: RowModel,
    now: i64,
) -> bool {
    &&& next.rows.len() == q.rows.len()
    &&& next.rows[i] == row
    &&& forall|j: int| 0 <= j < q.rows.len() && j != i ==> next.rows[j] == #[trigger] q.rows[j]
    &&& logs(q, next, row, now)
}

/// The stored names and the states stand for each other.
pub proof fn law_names_stand_for_states(name: Seq<char>, state: AgentQueueState)
    ensures
        named_state(name) is Queued <==> name == "queued"@,
        named_state(name) is Blocked <==> name == "blocked"@,
        named_state(name) is Attempting <==> name == "attempting"@,
        named_state(name) is Submitted <==> name == "submitted"@,
        named_state(name) is Ambiguous <==> name == "ambiguous"@,
        named_state(name) is Acknowledged <==> name == "acknowledged"@,
        named_state(name) is Canceled <==> name == "canceled"@,
        named_state(name) is Orphaned <==> name == "orphaned"@,
        named_state(name) matches RowState::Other(other) ==> other == name,
        same_state(state, named_state(state_name(state))),
        same_state(state, known(state)),
        shown_state(known(state)) == Some(state),
{
    lemma_named_state(state);
    lemma_named_state(AgentQueueState::Queued);
    lemma_named_state(AgentQueueState::Blocked);
    lemma_named_state(AgentQueueState::Attempting);
    lemma_named_state(AgentQueueState::Submitted);
    lemma_named_state(AgentQueueState::Ambiguous);
    lemma_named_state(AgentQueueState::Acknowledged);
    lemma_named_state(AgentQueueState::Canceled);
    lemma_named_state(AgentQueueState::Orphaned);
    assert(state_name(AgentQueueState::Queued) == "queued"@);
    assert(state_name(AgentQueueState::Blocked) == "blocked"@);
    assert(state_name(AgentQueueState::Attempting) == "attempting"@);
    assert(state_name(AgentQueueState::Submitted) == "submitted"@);
    assert(state_name(AgentQueueState::Ambiguous) == "ambiguous"@);
    assert(state_name(AgentQueueState::Acknowledged) == "acknowledged"@);
    assert(state_name(AgentQueueState::Canceled) == "canceled"@);
    assert(state_name(AgentQueueState::Orphaned) == "orphaned"@);
}

/// A loaded queue has the stored rows and the stored log, column by column.
pub proof fn law_columns_are_loaded(
    stored: Seq<StoredRow>,
    log: Seq<QueueEvent>,
    i: int,
    e: int,
)
    requires
        0 <= i < stored.len(),
        0 <= e < log.len(),
    ensures
        ({
            let q = loaded(stored, log);
            &&& q.rows.len() == stored.len()
            &&& q.rows[i].queue_id == stored[i].queue_id@
            &&& q.rows[i].instance_id == stored[i].instance_id@
            &&& q.rows[i].idempotency_key == stored[i].idempotency_key@
            &&& q.rows[i].text == stored[i].text@
            &&& q.rows[i].state == named_state(stored[i].state@)
            &&& q.rows[i].attempts == stored[i].attempts
            &&& q.rows[i].block_reason == stored[i].block_reason.deep_view()
            &&& q.rows[i].last_error == stored[i].last_error.deep_view()
            &&& q.rows[i].pty_epoch == stored[i].pty_epoch.deep_view()
            &&& q.rows[i].created_at_ms == stored[i].created_at_ms
            &&& q.rows[i].updated_at_ms == stored[i].updated_at_ms
            &&& q.events.len() == log.len()
            &&& q.events[e].queue_id == log[e].queue_id@
            &&& q.events[e].instance_id == log[e].instance_id@
            &&& q.events[e].state == named_state(log[e].state@)
            &&& q.events[e].created_at_ms == log[e].created_at_ms
        }),
{
}

/// What results hold is what was returned.
pub proof fn law_results_are_viewed_as_they_are(
    receipt: AgentQueueReceipt,
    e: QueueError,
    store: StoreError,
    text: String,
    duplicate: bool,
    receipts: Vec<AgentQueueReceipt>,
    names: Seq<String>,
    name: Seq<char>,
)
    ensures
        receipt@.version == receipt.version,
        receipt@.queue_id == receipt.queue_id@,
        receipt@.instance_id == receipt.instance_id@,
        receipt@.idempotency_key == receipt.idempotency_key@,
        receipt@.state == receipt.state,
        receipt@.attempts == receipt.attempts,
        receipt@.block_reason == receipt.block_reason.deep_view(),
        receipt@.last_error == receipt.last_error.deep_view(),
        receipt@.pty_epoch == receipt.pty_epoch.deep_view(),
        receipt@.created_at == receipt.created_at@,
        receipt@.updated_at == receipt.updated_at@,
        store@.kind == store.kind,
        store@.message == store.message@,
        match e {
            QueueError::Store(s) => e@ == QueueErrorModel::Store(s@),
            QueueError::NotFound => e@ == QueueErrorModel::NotFound,
            QueueError::IdempotencyConflict(r) => e@ == QueueErrorModel::IdempotencyConflict(r@),
            QueueError::AlreadySubmitted(r) => e@ == QueueErrorModel::AlreadySubmitted(r@),
            QueueError::InvalidTransition(r) => e@ == QueueErrorModel::InvalidTransition(r@),
        },
        receipt_view(Ok(receipt)) == Ok::<_, QueueErrorModel>(receipt@),
        receipt_view(Err(e)) == Err::<ReceiptModel, _>(e@),
        enqueue_view(Err(e)) == Err::<OutcomeModel, _>(e@),
        enqueue_view(Ok(EnqueueOutcome { receipt, duplicate })) == Ok::<_, QueueErrorModel>(
            OutcomeModel { receipt: receipt@, duplicate },
        ),
        claim_view(Ok(None)) == Ok::<Option<(ReceiptModel, Seq<char>)>, QueueErrorModel>(None),
        claim_view(Ok(Some((receipt, text)))) == Ok::<_, QueueErrorModel>(
            Some((receipt@, text@)),
        ),
        claim_view(Err(e)) == Err::<Option<(ReceiptModel, Seq<char>)>, _>(e@),
        list_view(Err(e)) == Err::<Seq<ReceiptModel>, _>(e@),
        list_view(Ok(receipts)) is Ok,
        list_view(Ok(receipts))->Ok_0.len() == receipts@.len(),
        receipts_view(receipts@) == list_view(Ok(receipts))->Ok_0,
        forall|k: int|
            0 <= k < receipts@.len() ==> list_view(Ok(receipts))->Ok_0[k] == (
            #[trigger] receipts@[k])@,
        text_set(names).contains(name) <==> exists|k: int|
            0 <= k < names.len() && (#[trigger] names[k])@ == name,
{
}

/// Database codes are sorted: busy and locked databases are busy, a full disk is full, damaged and
/// foreign files are corrupt, and anything else is unavailable. The text is passed on.
pub proof fn law_database_errors_are_sorted(code: Option<SqliteCode>, text: Seq<char>)
    ensures
        database_trouble(code, text).kind is Busy <==> code == Some(SqliteCode::DatabaseBusy)
            || code == Some(SqliteCode::DatabaseLocked),
        database_trouble(code, text).kind is Full <==> code == Some(SqliteCode::DiskFull),
        database_trouble(code, text).kind is Corrupt <==> code == Some(SqliteCode::DatabaseCorrupt)
            || code == Some(SqliteCode::NotADatabase),
        database_trouble(code, text).message == "durable queue database error: "@ + text,
        store_code(StoreErrorKind::Busy) == "store_busy"@,
        store_code(StoreErrorKind::Full) == "store_full"@,
        store_code(StoreErrorKind::Corrupt) == "store_corrupt"@,
        store_code(StoreErrorKind::Unavailable) == "store_unavailable"@,
{
}

/// An id that no row has is not found, by no operation, and nothing changes.
pub proof fn law_unknown_ids_are_not_found(
    q: QueueModel,
    queue_id: Seq<char>,
    text: Seq<char>,
    epoch: Option<Seq<char>>,
    now: i64,
)
    requires
        forall|j: int| 0 <= j < q.rows.len() ==> (#[trigger] q.rows[j]).queue_id != queue_id,
    ensures
        get_effect(q, queue_id) == Err::<ReceiptModel, _>(QueueErrorModel::NotFound),
        cancel_effect(q, queue_id, now) == (q, get_effect(q, queue_id)),
        acknowledge_effect(q, queue_id, now) == (q, get_effect(q, queue_id)),
        set_blocked_effect(q, queue_id, text, now) == (q, get_effect(q, queue_id)),
        mark_submitted_effect(q, queue_id, text, now) == (q, get_effect(q, queue_id)),
        mark_ambiguous_effect(q, queue_id, text, epoch, now) == (q, get_effect(q, queue_id)),
{
    lemma_first_where_none(q.rows, by_id(queue_id));
}

/// A row whose state is not one is the same error to every operation on it, and nothing changes.
pub proof fn law_bad_states_are_told(
    q: QueueModel,
    i: int,
    text: Seq<char>,
    epoch: Option<Seq<char>>,
    now: i64,
)
    requires
        has_its_id_alone(q, i),
        q.rows[i].state is Other,
    ensures
        ({
            let id = q.rows[i].queue_id;
            let told = get_effect(q, id);
            &&& told is Err && tells_bad_state(told->Err_0, q.rows[i])
            &&& cancel_effect(q, id, now) == (q, told)
            &&& acknowledge_effect(q, id, now) == (q, told)
            &&& set_blocked_effect(q, id, text, now) == (q, told)
            &&& mark_submitted_effect(q, id, text, now) == (q, told)
            &&& mark_ambiguous_effect(q, id, text, epoch, now) == (q, told)
        }),
{
    lemma_first_where_is(q.rows, by_id(q.rows[i].queue_id), i);
}

/// Getting a row tells what is in it.
pub proof fn law_get_tells_the_row(q: QueueModel, i: int)
    requires
        has_its_id_alone(q, i),
        !(q.rows[i].state is Other),
    ensures
        get_effect(q, q.rows[i].queue_id) is Ok,
        tells(get_effect(q, q.rows[i].queue_id)->Ok_0, q.rows[i]),
{
    lemma_first_where_is(q.rows, by_id(q.rows[i].queue_id), i);
}

/// Canceling a row: one that waits is canceled, one that is canceled stays so, one that may have
/// reached the terminal is refused as submitted, and one that is orphaned cannot be canceled.
pub proof fn law_canceling_a_row(q: QueueModel, i: int, now: i64)
    requires
        has_its_id_alone(q, i),
    ensures
        ({
            let row = q.rows[i];
            let (next, r) = cancel_effect(q, row.queue_id, now);
            match row.state {
                RowState::Queued | RowState::Blocked => {
                    let canceled = RowModel {
                        state: RowState::Canceled,
                        block_reason: None,
                        updated_at_ms: now,
                        ..row
                    };
                    changes_row(q, next, i, canceled, now) && r is Ok && tells(r->Ok_0, canceled)
                },
                RowState::Canceled => next == q && r is Ok && tells(r->Ok_0, row),
                RowState::Attempting
                | RowState::Submitted
                | RowState::Ambiguous
                | RowState::Acknowledged => next == q && r is Err && r->Err_0 is AlreadySubmitted
                    && tells(r->Err_0->AlreadySubmitted_0, row),
                RowState::Orphaned => next == q && r is Err && r->Err_0 is InvalidTransition
                    && tells(r->Err_0->InvalidTransition_0, row),
                RowState::Other(_) => next == q && r is Err,
            }
        }),
{
    lemma_first_where_is(q.rows, by_id(q.rows[i].queue_id), i);
}

/// Acknowledging a row: one that may have reached the terminal (attempting, submitted or ambiguous)
/// is acknowledged, one that is acknowledged stays so, and any other cannot be acknowledged.
pub proof fn law_acknowledging_a_row(q: QueueModel, i: int, now: i64)
    requires
        has_its_id_alone(q, i),
    ensures
        ({
            let row = q.rows[i];
            let (next, r) = acknowledge_effect(q, row.queue_id, now);
            &&& r is Ok <==> row.state is Attempting || row.state is Submitted
                || row.state is Ambiguous || row.state is Acknowledged
            &&& r is Ok ==> r->Ok_0.state is Acknowledged && next.rows[i].state is Acknowledged
            &&& match row.state {
                RowState::Attempting | RowState::Submitted | RowState::Ambiguous => {
                    let acknowledged = RowModel {
                        state: RowState::Acknowledged,
                        block_reason: None,
                        updated_at_ms: now,
                        ..row
                    };
                    changes_row(q, next, i, acknowledged, now) && r is Ok && tells(
                        r->Ok_0,
                        acknowledged,
                    )
                },
                RowState::Acknowledged => next == q && r is Ok && tells(r->Ok_0, row),
                RowState::Queued
                | RowState::Blocked
                | RowState::Canceled
                | RowState::Orphaned => next == q && r is Err && r->Err_0 is InvalidTransition
                    && tells(r->Err_0->InvalidTransition_0, row),
                RowState::Other(_) => next == q && r is Err,
            }
        }),
{
    lemma_first_where_is(q.rows, by_id(q.rows[i].queue_id), i);
}

/// Blocking a row: one that waits is blocked with the reason, unless it is already blocked with it,
/// and any other cannot be blocked.
pub proof fn law_blocking_a_row(q: QueueModel, i: int, reason: Seq<char>, now: i64)
    requires
        has_its_id_alone(q, i),
        !(q.rows[i].state is Other),
    ensures
        ({
            let row = q.rows[i];
            let (next, r) = set_blocked_effect(q, row.queue_id, reason, now);
            if row.state is Blocked && row.block_reason == Some(reason) {
                next == q && r is Ok && tells(r->Ok_0, row)
            } else if row.state is Queued || row.state is Blocked {
                let blocked = RowModel {
                    state: RowState::Blocked,
                    block_reason: Some(reason),
                    last_error: None,
                    updated_at_ms: now,
                    ..row
                };
                changes_row(q, next, i, blocked, now) && r is Ok && tells(r->Ok_0, blocked)
            } else {
                next == q && r is Err && r->Err_0 is InvalidTransition && tells(
                    r->Err_0->InvalidTransition_0,
                    row,
                )
            }
        }),
{
    lemma_first_where_is(q.rows, by_id(q.rows[i].queue_id), i);
}

/// Ending a delivery attempt: only a row that is attempted is submitted or becomes ambiguous. A
/// submitted row has the PTY epoch that is given, an ambiguous one the error, and the epoch where
/// one is given.
pub proof fn law_ending_an_attempt(
    q: QueueModel,
    i: int,
    text: Seq<char>,
    epoch: Option<Seq<char>>,
    now: i64,
)
    requires
        has_its_id_alone(q, i),
        !(q.rows[i].state is Other),
    ensures
        ({
            let row = q.rows[i];
            let (submitted, s) = mark_submitted_effect(q, row.queue_id, text, now);
            let (ambiguous, a) = mark_ambiguous_effect(q, row.queue_id, text, epoch, now);
            if row.state is Attempting {
                let sent = RowModel {
                    state: RowState::Submitted,
                    block_reason: None,
                    last_error: None,
                    pty_epoch: Some(text),
                    updated_at_ms: now,
                    ..row
                };
                let unsure = RowModel {
                    state: RowState::Ambiguous,
                    block_reason: None,
                    last_error: Some(text),
                    pty_epoch: match epoch {
                        Some(_) => epoch,
                        None => row.pty_epoch,
                    },
                    updated_at_ms: now,
                    ..row
                };
                &&& changes_row(q, submitted, i, sent, now)
                &&& s is Ok && tells(s->Ok_0, sent)
                &&& changes_row(q, ambiguous, i, unsure, now)
                &&& a is Ok && tells(a->Ok_0, unsure)
            } else {
                &&& submitted == q && ambiguous == q
                &&& s is Err && s->Err_0 is InvalidTransition && tells(
                    s->Err_0->InvalidTransition_0,
                    row,
                )
                &&& a == s
            }
        }),
{
    lemma_first_where_is(q.rows, by_id(q.rows[i].queue_id), i);
}

/// Enqueueing under a key that the instance has not used: a row with the id is appended, queued and
/// not attempted; where the id is taken, nothing changes.
pub proof fn law_enqueueing_under_a_new_key(
    q: QueueModel,
    instance_id: Seq<char>,
    key: Seq<char>,
    text: Seq<char>,
    queue_id: Seq<char>,
    now: i64,
)
    requires
        forall|j: int|
            0 <= j < q.rows.len() && (#[trigger] q.rows[j]).instance_id == instance_id
                ==> q.rows[j].idempotency_key != key,
    ensures
        ({
            let (next, r) = enqueue_effect(q, instance_id, key, text, queue_id, now);
            let row = next.rows.last();
            if exists|j: int| 0 <= j < q.rows.len() && (#[trigger] q.rows[j]).queue_id == queue_id {
                next == q && r is Err && r->Err_0 is Store && r->Err_0->Store_0.kind is Unavailable
                    && r->Err_0->Store_0.message == "durable queue database error: "@
                    + "UNIQUE constraint failed: agent_queue.queue_id"@
            } else {
                &&& next.rows.len() == q.rows.len() + 1
                &&& forall|j: int|
                    0 <= j < q.rows.len() ==> next.rows[j] == #[trigger] q.rows[j]
                &&& row.queue_id == queue_id
                &&& row.instance_id == instance_id
                &&& row.idempotency_key == key
                &&& row.text == text
                &&& row.state is Queued
                &&& row.attempts == 0
                &&& row.block_reason is None
                &&& row.last_error is None
                &&& row.pty_epoch is None
                &&& row.created_at_ms == now
                &&& row.updated_at_ms == now
                &&& logs(q, next, row, now)
                &&& r is Ok && !r->Ok_0.duplicate && tells(r->Ok_0.receipt, row)
            }
        }),
{
    assert forall|j: int| 0 <= j < q.rows.len() implies !by_key(instance_id, key)(
        #[trigger] q.rows[j],
    ) by {}
    lemma_first_where_none(q.rows, by_key(instance_id, key));
    lemma_first_where(q.rows, by_id(queue_id));
    if exists|j: int| 0 <= j < q.rows.len() && (#[trigger] q.rows[j]).queue_id == queue_id {
        let j = choose|j: int|
            0 <= j < q.rows.len() && (#[trigger] q.rows[j]).queue_id == queue_id;
        assert(by_id(queue_id)(q.rows[j]));
    } else {
        assert(first_where(q.rows, by_id(queue_id)) is None);
    }
}

/// Enqueueing under a key that the instance has used: the row is told, where the text is its text
/// and it can be read, and nothing changes.
pub proof fn law_enqueueing_under_a_used_key(
    q: QueueModel,
    i: int,
    text: Seq<char>,
    queue_id: Seq<char>,
    now: i64,
)
    requires
        0 <= i < q.rows.len(),
        forall|j: int|
            0 <= j < q.rows.len() && j != i && (#[trigger] q.rows[j]).instance_id
                == q.rows[i].instance_id ==> q.rows[j].idempotency_key
                != q.rows[i].idempotency_key,
    ensures
        ({
            let row = q.rows[i];
            let (next, r) = enqueue_effect(
                q,
                row.instance_id,
                row.idempotency_key,
                text,
                queue_id,
                now,
            );
            &&& next == q
            &&& if row.state is Other {
                r is Err && tells_bad_state(r->Err_0, row)
            } else if text == row.text {
                r is Ok && r->Ok_0.duplicate && tells(r->Ok_0.receipt, row)
            } else {
                r is Err && r->Err_0 is IdempotencyConflict && tells(
                    r->Err_0->IdempotencyConflict_0,
                    row,
                )
            }
        }),
{
    lemma_first_where_is(
        q.rows,
        by_key(q.rows[i].instance_id, q.rows[i].idempotency_key),
        i,
    );
}

/// The row belongs to the instance and waits for a delivery, or for another one.
pub open spec fn is_due(row: RowModel, instance_id: Seq<char>) -> bool {
    row.instance_id == instance_id && (row.state is Queued || row.state is Blocked
        || row.state is Ambiguous)
}

/// The row belongs to the instance and is being delivered, or was and is not acknowledged.
pub open spec fn is_under_way(row: RowModel, instance_id: Seq<char>) -> bool {
    row.instance_id == instance_id && (row.state is Attempting || row.state is Submitted)
}

/// Nothing is claimed while a row of the instance is attempted or submitted, nor when none of its
/// rows is queued, blocked or ambiguous.
pub proof fn law_nothing_is_claimed(q: QueueModel, instance_id: Seq<char>, now: i64)
    requires
        (exists|j: int|
            0 <= j < q.rows.len() && is_under_way(#[trigger] q.rows[j], instance_id)) || (forall|
            j: int,
        |
            0 <= j < q.rows.len() ==> !is_due(#[trigger] q.rows[j], instance_id)),
    ensures
        claim_effect(q, instance_id, now).0 == q,
        claim_effect(q, instance_id, now).1 is Ok,
        claim_effect(q, instance_id, now).1->Ok_0 is None,
{
    lemma_first_where(q.rows, being_delivered(instance_id));
    lemma_first_where(q.rows, claimable(instance_id));
    if exists|j: int| 0 <= j < q.rows.len() && is_under_way(#[trigger] q.rows[j], instance_id) {
        let j = choose|j: int|
            0 <= j < q.rows.len() && is_under_way(#[trigger] q.rows[j], instance_id);
        assert(being_delivered(instance_id)(q.rows[j]));
    } else {
        assert forall|j: int| 0 <= j < q.rows.len() implies !claimable(instance_id)(
            #[trigger] q.rows[j],
        ) by {
            assert(!is_due(q.rows[j], instance_id));
        }
        lemma_first_where_none(q.rows, claimable(instance_id));
    }
}

/// Otherwise the first of its rows that is queued, blocked or ambiguous is claimed: it is
/// attempted once more, without the reason and the error it had, and its text is handed out. A row
/// behind it that is ambiguous, or a count that cannot rise, is storage trouble.
pub proof fn law_first_due_row_is_claimed(q: QueueModel, i: int, now: i64)
    requires
        0 <= i < q.rows.len(),
        is_due(q.rows[i], q.rows[i].instance_id),
        forall|j: int| 0 <= j < i ==> !is_due(#[trigger] q.rows[j], q.rows[i].instance_id),
        forall|j: int|
            0 <= j < q.rows.len() ==> !is_under_way(#[trigger] q.rows[j], q.rows[i].instance_id),
    ensures
        ({
            let row = q.rows[i];
            let (next, r) = claim_effect(q, row.instance_id, now);
            if exists|j: int|
                0 <= j < q.rows.len() && j != i && (#[trigger] q.rows[j]).instance_id
                    == row.instance_id && q.rows[j].state is Ambiguous {
                next == q && r is Err && r->Err_0 is Store && r->Err_0->Store_0.kind is Unavailable
                    && r->Err_0->Store_0.message == "durable queue database error: "@
                    + "UNIQUE constraint failed: agent_queue.instance_id"@
            } else if row.attempts == i64::MAX {
                next == q && r is Err && r->Err_0 is Store && r->Err_0->Store_0.kind is Unavailable
                    && r->Err_0->Store_0.message == "durable queue database error: "@
                    + "Invalid column type Real at index: 4, name: attempts"@
            } else {
                let claimed = RowModel {
                    state: RowState::Attempting,
                    attempts: (row.attempts + 1) as i64,
                    block_reason: None,
                    last_error: None,
                    updated_at_ms: now,
                    ..row
                };
                &&& changes_row(q, next, i, claimed, now)
                &&& r matches Ok(Some(handed)) && tells(handed.0, claimed) && handed.1 == row.text
            }
        }),
{
    let instance_id = q.rows[i].instance_id;
    assert forall|j: int| 0 <= j < q.rows.len() implies !being_delivered(instance_id)(
        #[trigger] q.rows[j],
    ) by {
        assert(!is_under_way(q.rows[j], instance_id));
    }
    lemma_first_where_none(q.rows, being_delivered(instance_id));
    assert forall|j: int| 0 <= j < i implies !claimable(instance_id)(#[trigger] q.rows[j]) by {
        assert(!is_due(q.rows[j], instance_id));
    }
    lemma_first_where_is(q.rows, claimable(instance_id), i);
    if other_inflight(q.rows, i) {
        let j = choose|j: int|
            0 <= j < q.rows.len() && j != i && (#[trigger] q.rows[j]).instance_id == instance_id
                && is_inflight_state(q.rows[j].state);
        assert(!is_under_way(q.rows[j], instance_id));
        assert(q.rows[j].state is Ambiguous);
    }
}

/// Where the elements that `gather` picks come from.
pub proof fn lemma_gather_places<A>(n: nat, p: spec_fn(int) -> bool, f: spec_fn(int) -> A) -> (places:
    Seq<int>)
    ensures
        places.len() == gather(n, p, f).len(),
        forall|k: int|
            0 <= k < places.len() ==> 0 <= #[trigger] places[k] < n && p(places[k]) && gather(
                n,
                p,
                f,
            )[k] == f(places[k]),
        forall|j: int, k: int|
            0 <= j < k < places.len() ==> #[trigger] places[j] < #[trigger] places[k],
        forall|i: int| 0 <= i < n && #[trigger] p(i) ==> places.contains(i),
    decreases n,
{
    if n == 0 {
        Seq::empty()
    } else {
        let m = (n - 1) as nat;
        let before = lemma_gather_places(m, p, f);
        let places = if p(n - 1) {
            before.push(n - 1)
        } else {
            before
        };
        assert forall|i: int| 0 <= i < n && #[trigger] p(i) implies places.contains(i) by {
            if i < n - 1 {
                assert(before.contains(i));
                let k = before.index_of(i);
                assert(places[k] == i);
            } else {
                assert(places[places.len() - 1] == i);
            }
        }
        places
    }
}

/// `places` are the numbers below `n` with `p`, from the lowest to the highest.
pub open spec fn are_places(places: Seq<int>, n: nat, p: spec_fn(int) -> bool) -> bool {
    &&& forall|k: int| 0 <= k < places.len() ==> 0 <= #[trigger] places[k] < n && p(places[k])
    &&& forall|j: int, k: int|
        0 <= j < k < places.len() ==> #[trigger] places[j] < #[trigger] places[k]
    &&& forall|i: int| 0 <= i < n && #[trigger] p(i) ==> places.contains(i)
}

/// The row passes the filters of a listing.
pub open spec fn passes(
    row: RowModel,
    instance_id: Option<Seq<char>>,
    state: Option<AgentQueueState>,
) -> bool {
    &&& instance_id is None || row.instance_id == instance_id->0
    &&& state is None || same_state(state->0, row.state)
}

/// Listing tells, in the order of enqueueing, exactly the rows that pass the filters. One of them
/// that cannot be read is an error, the first such row's.
pub proof fn law_listing_tells_the_rows(
    q: QueueModel,
    instance_id: Option<Seq<char>>,
    state: Option<AgentQueueState>,
) -> (places: Seq<int>)
    ensures
        match list_effect(q, instance_id, state) {
            Ok(listed) => {
                &&& are_places(places, q.rows.len(), |i: int| passes(q.rows[i], instance_id, state))
                &&& listed.len() == places.len()
                &&& forall|k: int|
                    0 <= k < places.len() ==> tells(listed[k], q.rows[#[trigger] places[k]])
                        && !(q.rows[places[k]].state is Other)
            },
            Err(e) => exists|i: int|
                {
                    &&& 0 <= i < q.rows.len()
                    &&& passes(#[trigger] q.rows[i], instance_id, state)
                    &&& tells_bad_state(e, q.rows[i])
                    &&& forall|j: int|
                        0 <= j < i && passes(#[trigger] q.rows[j], instance_id, state) ==> !(
                        q.rows[j].state is Other)
                },
        },
{
    let p = |i: int| is_listed(q.rows[i], instance_id, state);
    let f = |i: int| receipt_of(q.rows[i]);
    let stops = stops_listing(instance_id, state);
    assert forall|i: int| 0 <= i < q.rows.len() implies is_listed(
        #[trigger] q.rows[i],
        instance_id,
        state,
    ) == passes(q.rows[i], instance_id, state) by {
        if state is Some {
            law_names_stand_for_states(Seq::empty(), state->0);
        }
    }
    lemma_first_where(q.rows, stops);
    let places = lemma_gather_places(q.rows.len(), p, f);
    let r = |i: int| passes(q.rows[i], instance_id, state);
    match list_effect(q, instance_id, state) {
        Ok(listed) => {
            assert forall|k: int| 0 <= k < places.len() implies tells(
                listed[k],
                q.rows[#[trigger] places[k]],
            ) && !(q.rows[places[k]].state is Other) by {
                assert(p(places[k]));
                assert(!stops(q.rows[places[k]]));
            }
            assert forall|i: int| 0 <= i < q.rows.len() && #[trigger] r(i) implies places.contains(
                i,
            ) by {
                assert(p(i));
            }
            assert forall|k: int| 0 <= k < places.len() implies 0 <= #[trigger] places[k]
                < q.rows.len() && r(places[k]) by {
                assert(p(places[k]));
            }
        },
        Err(e) => {
            let i = first_where(q.rows, stops)->0;
            assert(passes(q.rows[i], instance_id, state));
            assert forall|j: int|
                0 <= j < i && passes(#[trigger] q.rows[j], instance_id, state) implies !(
            q.rows[j].state is Other) by {
                assert(!stops(q.rows[j]));
            }
        },
    }
    places
}

/// A restart makes every attempted row ambiguous, with the reason, leaves every other row alone,
/// and logs one entry for each row that it changed, in the order of enqueueing.
pub proof fn law_restarts_make_attempts_ambiguous(q: QueueModel, now: i64) -> (places: Seq<int>)
    ensures
        ({
            let next = recover_effect(q, now);
            &&& next.rows.len() == q.rows.len()
            &&& forall|i: int|
                0 <= i < q.rows.len() ==> #[trigger] next.rows[i] == if q.rows[i].state
                    is Attempting {
                    RowModel {
                        state: RowState::Ambiguous,
                        last_error: Some("server_restarted_during_submission"@),
                        updated_at_ms: now,
                        ..q.rows[i]
                    }
                } else {
                    q.rows[i]
                }
            &&& are_places(places, q.rows.len(), |i: int| q.rows[i].state is Attempting)
            &&& next.events.len() == q.events.len() + places.len()
            &&& forall|e: int| 0 <= e < q.events.len() ==> next.events[e] == #[trigger] q.events[e]
            &&& forall|k: int|
                0 <= k < places.len() ==> next.events[q.events.len() + k] == (EventModel {
                    queue_id: q.rows[#[trigger] places[k]].queue_id,
                    instance_id: q.rows[places[k]].instance_id,
                    state: RowState::Ambiguous,
                    created_at_ms: now,
                })
        }),
{
    let p = |i: int| q.rows[i].state is Attempting;
    let f = |i: int| event_of(interrupted_row(q.rows[i], now), now);
    lemma_gather_places(q.rows.len(), p, f)
}

/// The row is in a state that is not settled, and its instance is not known.
pub open spec fn is_left_behind(row: RowModel, known: Set<Seq<char>>) -> bool {
    &&& row.state is Queued || row.state is Blocked || row.state is Attempting
        || row.state is Submitted || row.state is Ambiguous
    &&& !known.contains(row.instance_id)
}

/// Orphaning a queue that can be read: every row of an instance that is not known is settled
/// after it. One that was queued, blocked, attempting, submitted or ambiguous is orphaned, with the
/// reason, and told; every other row is left alone. The log has an entry for each that was
/// orphaned.
pub proof fn law_left_behind_rows_are_orphaned(
    q: QueueModel,
    known: Set<Seq<char>>,
    times: Seq<i64>,
) -> (places: Seq<int>)
    requires
        forall|i: int| 0 <= i < q.rows.len() ==> !((#[trigger] q.rows[i]).state is Other),
    ensures
        ({
            let next = orphan_effect(q, known, times);
            let told = orphaned_receipts(q, known, times);
            &&& next.rows.len() == q.rows.len()
            &&& forall|i: int|
                0 <= i < q.rows.len() && !known.contains(q.rows[i].instance_id) ==> {
                    let state = (#[trigger] next.rows[i]).state;
                    state is Acknowledged || state is Canceled || state is Orphaned
                }
            &&& forall|i: int|
                0 <= i < q.rows.len() ==> #[trigger] next.rows[i] == if is_left_behind(
                    q.rows[i],
                    known,
                ) {
                    RowModel {
                        state: RowState::Orphaned,
                        block_reason: None,
                        last_error: Some("agent_instance_replaced_or_closed"@),
                        updated_at_ms: times[i],
                        ..q.rows[i]
                    }
                } else {
                    q.rows[i]
                }
            &&& are_places(places, q.rows.len(), |i: int| is_left_behind(q.rows[i], known))
            &&& told is Ok && told->Ok_0.len() == places.len()
            &&& next.events.len() == q.events.len() + places.len()
            &&& forall|e: int| 0 <= e < q.events.len() ==> next.events[e] == #[trigger] q.events[e]
            &&& forall|k: int|
                0 <= k < places.len() ==> {
                    &&& tells(told->Ok_0[k], next.rows[#[trigger] places[k]])
                    &&& next.events[q.events.len() + k] == (EventModel {
                        queue_id: q.rows[places[k]].queue_id,
                        instance_id: q.rows[places[k]].instance_id,
                        state: RowState::Orphaned,
                        created_at_ms: times[places[k]],
                    })
                }
        }),
{
    let next = orphan_effect(q, known, times);
    law_list_shows_every_row(q);
    let p = |i: int| is_orphan(q.rows[i], known);
    let f = |i: int| event_of(orphaned_row(q.rows[i], times[i]), times[i]);
    let g = |i: int| receipt_of(orphaned_row(q.rows[i], times[i]));
    assert forall|i: int| 0 <= i < q.rows.len() implies is_orphan(#[trigger] q.rows[i], known)
        == is_left_behind(q.rows[i], known) by {}
    let places = lemma_gather_places(q.rows.len(), p, f);
    let same = lemma_gather_places(q.rows.len(), p, g);
    lemma_same_places(places, same, q.rows.len(), p);
    let r = |i: int| is_left_behind(q.rows[i], known);
    assert forall|i: int| 0 <= i < q.rows.len() && #[trigger] r(i) implies places.contains(i) by {
        assert(p(i));
    }
    assert forall|k: int| 0 <= k < places.len() implies 0 <= #[trigger] places[k] < q.rows.len()
        && r(places[k]) by {
        assert(p(places[k]));
    }
    places
}

/// There is one way to list the numbers with `p` from the lowest to the highest.
proof fn lemma_same_places(a: Seq<int>, b: Seq<int>, n: nat, p: spec_fn(int) -> bool)
    requires
        are_places(a, n, p),
        are_places(b, n, p),
    ensures
        a == b,
    decreases a.len() + b.len(),
{
    if a.len() == 0 {
        if b.len() > 0 {
            assert(p(b[0]));
            assert(a.contains(b[0]));
        }
    } else if b.len() == 0 {
        assert(p(a[0]));
        assert(b.contains(a[0]));
    } else {
        let (x, y) = (a.last(), b.last());
        assert(p(a[a.len() - 1]) && p(b[b.len() - 1]));
        assert(a.contains(y) && b.contains(x));
        let i = a.index_of(y);
        let j = b.index_of(x);
        assert(x == y) by {
            if i < a.len() - 1 {
                assert(a[i] < a[a.len() - 1]);
            }
            if j < b.len() - 1 {
                assert(b[j] < b[b.len() - 1]);
            }
        }
        let q = |k: int| p(k) && k < x;
        let (a1, b1) = (a.drop_last(), b.drop_last());
        assert forall|k: int| 0 <= k < n && #[trigger] q(k) implies a1.contains(k) && b1.contains(
            k,
        ) by {
            assert(p(k));
            let u = a.index_of(k);
            let v = b.index_of(k);
            assert(a1[u] == k && b1[v] == k);
        }
        assert forall|k: int| 0 <= k < a1.len() implies 0 <= #[trigger] a1[k] < n && q(a1[k]) by {
            assert(a[k] < a[a.len() - 1]);
        }
        assert forall|k: int| 0 <= k < b1.len() implies 0 <= #[trigger] b1[k] < n && q(b1[k]) by {
            assert(b[k] < b[b.len() - 1]);
        }
        lemma_same_places(a1, b1, n, q);
        assert(a =~= a1.push(x));
        assert(b =~= b1.push(y));
    }
}

/// Where a row cannot be read, nothing is orphaned, and the first such row is told.
pub proof fn law_nothing_is_orphaned_past_a_bad_state(
    q: QueueModel,
    i: int,
    known: Set<Seq<char>>,
    times: Seq<i64>,
)
    requires
        0 <= i < q.rows.len(),
        q.rows[i].state is Other,
        forall|j: int| 0 <= j < i ==> !((#[trigger] q.rows[j]).state is Other),
    ensures
        orphan_effect(q, known, times) == q,
        orphaned_receipts(q, known, times) is Err,
        tells_bad_state(orphaned_receipts(q, known, times)->Err_0, q.rows[i]),
{
    lemma_first_where_is(q.rows, stops_listing(None, None), i);
}

/// Every history from an empty queue, in plain terms: no two rows share an id; rows of one instance
/// do not share a key; at most one of them is attempted, submitted or ambiguous; and none in front
/// of it is queued or blocked.
pub proof fn law_histories_in_plain_terms(ops: Seq<QueueOp>, i: int, j: int)
    requires
        0 <= i < j < run(empty_queue(), ops).rows.len(),
    ensures
        ({
            let a = run(empty_queue(), ops).rows[i];
            let b = run(empty_queue(), ops).rows[j];
            let b_in_flight = b.state is Attempting || b.state is Submitted || b.state is Ambiguous;
            &&& a.queue_id != b.queue_id
            &&& a.attempts >= 0 && b.attempts >= 0
            &&& a.instance_id == b.instance_id ==> {
                &&& a.idempotency_key != b.idempotency_key
                &&& b_in_flight ==> a.state is Acknowledged || a.state is Canceled
                    || a.state is Orphaned || a.state is Other
            }
        }),
{
    law_every_history_is_sound(ops);
}

/// The queue that a history starts from has no rows and no log.
pub proof fn law_empty_queue_is_empty()
    ensures
        empty_queue().rows.len() == 0,
        empty_queue().events.len() == 0,
{
}

/// The changes since a queue had `n` rows and `m` log entries: what came after them, and of the
/// first `n` rows those that a later entry is about.
pub proof fn law_changes_are_what_is_new(q: QueueModel, n: nat, m: nat) -> (places: Seq<int>)
    requires
        n <= q.rows.len(),
        m <= q.events.len(),
    ensures
        ({
            let c = changes(q, n, m);
            &&& c.inserted.len() == q.rows.len() - n
            &&& forall|k: int|
                0 <= k < c.inserted.len() ==> #[trigger] c.inserted[k] == q.rows[n + k]
            &&& c.logged.len() == q.events.len() - m
            &&& forall|k: int|
                0 <= k < c.logged.len() ==> #[trigger] c.logged[k] == q.events[m + k]
            &&& c.updated.len() == places.len()
            &&& forall|k: int|
                0 <= k < places.len() ==> c.updated[k] == q.rows[#[trigger] places[k]]
            &&& are_places(
                places,
                n,
                |i: int|
                    exists|k: int|
                        0 <= k < c.logged.len() && (#[trigger] c.logged[k]).queue_id
                            == q.rows[i].queue_id,
            )
        }),
        forall|a: nat, b: nat|
            a <= b ==> #[trigger] at_most(a, b) == a && at_most(b, a) == a,
{
    let c = changes(q, n, m);
    let logged = q.events.skip(m as int);
    let p = |i: int| is_logged(logged, q.rows[i].queue_id);
    let places = lemma_gather_places(n, p, |i: int| q.rows[i]);
    let r = |i: int|
        exists|k: int|
            0 <= k < c.logged.len() && (#[trigger] c.logged[k]).queue_id == q.rows[i].queue_id;
    assert forall|i: int| 0 <= i < n && #[trigger] r(i) implies places.contains(i) by {
        assert(p(i));
    }
    assert forall|k: int| 0 <= k < places.len() implies 0 <= #[trigger] places[k] < n && r(
        places[k],
    ) by {
        assert(p(places[k]));
    }
    places
}

/// Writing changes replaces a row by the first update with its id, leaves the others, and appends
/// the insertions and the log entries.
pub proof fn law_writing_changes(q: QueueModel, c: ChangesModel, i: int)
    requires
        0 <= i < q.rows.len(),
    ensures
        ({
            let next = written(q, c);
            &&& next.rows.len() == q.rows.len() + c.inserted.len()
            &&& forall|k: int|
                0 <= k < c.inserted.len() ==> next.rows[q.rows.len() + k] == #[trigger] c.inserted[k]
            &&& next.events.len() == q.events.len() + c.logged.len()
            &&& forall|k: int|
                0 <= k < c.logged.len() ==> next.events[q.events.len() + k] == #[trigger] c.logged[k]
            &&& forall|k: int|
                0 <= k < q.events.len() ==> next.events[k] == #[trigger] q.events[k]
            &&& forall|k: int|
                {
                    &&& 0 <= k < c.updated.len()
                    &&& (#[trigger] c.updated[k]).queue_id == q.rows[i].queue_id
                    &&& forall|j: int|
                        0 <= j < k ==> (#[trigger] c.updated[j]).queue_id != q.rows[i].queue_id
                } ==> next.rows[i] == c.updated[k]
            &&& (forall|k: int|
                0 <= k < c.updated.len() ==> (#[trigger] c.updated[k]).queue_id
                    != q.rows[i].queue_id) ==> next.rows[i] == q.rows[i]
        }),
{
    let id = by_id(q.rows[i].queue_id);
    lemma_first_where(c.updated, id);
    assert forall|k: int|
        {
            &&& 0 <= k < c.updated.len()
            &&& (#[trigger] c.updated[k]).queue_id == q.rows[i].queue_id
            &&& forall|j: int|
                0 <= j < k ==> (#[trigger] c.updated[j]).queue_id != q.rows[i].queue_id
        } implies written(q, c).rows[i] == c.updated[k] by {
        lemma_first_where_is(c.updated, id, k);
    }
}

/// Settling a row: one that is there already stays, one that waits can be canceled, one that may
/// have reached the terminal can be acknowledged, and nothing else changes.
pub proof fn law_settling_a_row(q: QueueModel, i: int, target: AgentQueueState, now: i64)
    requires
        has_its_id_alone(q, i),
        !(q.rows[i].state is Other),
    ensures
        ({
            let row = q.rows[i];
            let (next, r) = settle_effect(q, row.queue_id, target, now);
            let sent = row.state is Attempting || row.state is Submitted || row.state is Ambiguous;
            let settled = RowModel {
                state: if target is Canceled {
                    RowState::Canceled
                } else {
                    RowState::Acknowledged
                },
                block_reason: None,
                updated_at_ms: now,
                ..row
            };
            if same_state(target, row.state) {
                next == q && r is Ok && tells(r->Ok_0, row)
            } else if target is Canceled && (row.state is Queued || row.state is Blocked)
                || target is Acknowledged && sent {
                changes_row(q, next, i, settled, now) && r is Ok && tells(r->Ok_0, settled)
            } else if sent || row.state is Acknowledged {
                next == q && r is Err && r->Err_0 is AlreadySubmitted && tells(
                    r->Err_0->AlreadySubmitted_0,
                    row,
                )
            } else {
                next == q && r is Err && r->Err_0 is InvalidTransition && tells(
                    r->Err_0->InvalidTransition_0,
                    row,
                )
            }
        }),
{
    lemma_first_where_is(q.rows, by_id(q.rows[i].queue_id), i);
}

/// Moving a row: one that waits can be blocked, and one that is attempted can be submitted or become
/// ambiguous. The reason and the error are those that are given, the epoch too where one is given,
/// and a move that counts as an attempt is counted once, as long as there is a number for it.
pub proof fn law_moving_a_row(
    q: QueueModel,
    i: int,
    target: AgentQueueState,
    block_reason: Option<Seq<char>>,
    last_error: Option<Seq<char>>,
    pty_epoch: Option<Seq<char>>,
    counted: bool,
    now: i64,
)
    requires
        has_its_id_alone(q, i),
        !(q.rows[i].state is Other),
    ensures
        ({
            let row = q.rows[i];
            let (next, r) = update_effect(
                q,
                row.queue_id,
                target,
                block_reason,
                last_error,
                pty_epoch,
                counted,
                now,
            );
            let moved = next.rows[i];
            let allowed = target is Blocked && (row.state is Queued || row.state is Blocked) || (
            target is Submitted || target is Ambiguous) && row.state is Attempting;
            if !allowed {
                next == q && r is Err && r->Err_0 is InvalidTransition && tells(
                    r->Err_0->InvalidTransition_0,
                    row,
                )
            } else if counted && row.attempts == 0x7fff_ffff_ffff_ffff {
                next == q && r is Err && r->Err_0 is Store && r->Err_0->Store_0.kind is Unavailable
            } else {
                &&& changes_row(q, next, i, moved, now)
                &&& r is Ok && tells(r->Ok_0, moved)
                &&& same_state(target, moved.state)
                &&& moved.block_reason == block_reason
                &&& moved.last_error == last_error
                &&& moved.updated_at_ms == now
                &&& pty_epoch is Some ==> moved.pty_epoch == pty_epoch
                &&& pty_epoch is None ==> moved.pty_epoch == row.pty_epoch
                &&& counted ==> moved.attempts == row.attempts + 1
                &&& !counted ==> moved.attempts == row.attempts
                &&& moved.queue_id == row.queue_id
                &&& moved.instance_id == row.instance_id
                &&& moved.idempotency_key == row.idempotency_key
                &&& moved.text == row.text
                &&& moved.created_at_ms == row.created_at_ms
            }
        }),
{
    lemma_first_where_is(q.rows, by_id(q.rows[i].queue_id), i);
}

/// The states that a row never leaves are those in which it was acknowledged, canceled or orphaned:
/// of the rows whose instance is gone, exactly the rows in them are not orphaned.
pub proof fn law_terminal_states_are_final(
    q: QueueModel,
    state: AgentQueueState,
    i: int,
    times: Seq<i64>,
)
    requires
        0 <= i < q.rows.len(),
        same_state(state, q.rows[i].state),
        list_effect(q, None, None) is Ok,
    ensures
        !is_terminal_state(AgentQueueState::Queued),
        !is_terminal_state(AgentQueueState::Blocked),
        !is_terminal_state(AgentQueueState::Attempting),
        !is_terminal_state(AgentQueueState::Submitted),
        !is_terminal_state(AgentQueueState::Ambiguous),
        is_terminal_state(AgentQueueState::Acknowledged),
        is_terminal_state(AgentQueueState::Canceled),
        is_terminal_state(AgentQueueState::Orphaned),
        is_terminal_state(state) ==> orphan_effect(q, Set::empty(), times).rows[i] == q.rows[i],
        !is_terminal_state(state) ==> orphan_effect(q, Set::empty(), times).rows[i].state
            is Orphaned,
{
}

} // verus!
