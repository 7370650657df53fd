//! What holds of the queue whatever is done to it.
use crate::api::schema::{AgentQueueState, ReceiptModel};
use crate::queue::error::QueueErrorModel;
use crate::queue::model::{
    EventModel, OutcomeModel, QueueModel, RowModel, RowState, acknowledge_effect, by_id, by_key,
    cancel_effect, claim_effect, claimable, empty_queue, enqueue_effect, event_of, first_where,
    gather, get_effect, inflight_leads, interrupted_row, is_inflight_state, is_listed, is_orphan,
    is_settled_state, is_waiting_state, lemma_first_where, lemma_first_where_is,
    lemma_first_where_none, list_effect, listed_receipts, logged_row_exists, mark_ambiguous_effect,
    mark_submitted_effect, new_row, orphan_effect, orphaned_row, other_inflight, put_row, read_row,
    receipt_of, recover_effect, schema_holds, set_blocked_effect, sound, stops_listing,
};
use vstd::prelude::*;

verus! {

/// One operation on the queue, with the time and the id that it is given.
pub enum QueueOp {
    Enqueue {
        instance_id: Seq<char>,
        key: Seq<char>,
        text: Seq<char>,
        queue_id: Seq<char>,
        now: i64,
    },
    Cancel { queue_id: Seq<char>, now: i64 },
    Acknowledge { queue_id: Seq<char>, now: i64 },
    SetBlocked { queue_id: Seq<char>, reason: Seq<char>, now: i64 },
    Claim { instance_id: Seq<char>, now: i64 },
    MarkSubmitted { queue_id: Seq<char>, pty_epoch: Seq<char>, now: i64 },
    MarkAmbiguous {
        queue_id: Seq<char>,
        error: Seq<char>,
        known_epoch: Option<Seq<char>>,
        now: i64,
    },
    Recover { now: i64 },
    Orphan { known: Set<Seq<char>>, times: Seq<i64> },
}

/// The queue after one operation.
pub open spec fn apply(q: QueueModel, op: QueueOp) -> QueueModel {
    match op {
        QueueOp::Enqueue { instance_id, key, text, queue_id, now } => enqueue_effect(
            q,
            instance_id,
            key,
            text,
            queue_id,
            now,
        ).0,
        QueueOp::Cancel { queue_id, now } => cancel_effect(q, queue_id, now).0,
        QueueOp::Acknowledge { queue_id, now } => acknowledge_effect(q, queue_id, now).0,
        QueueOp::SetBlocked { queue_id, reason, now } => set_blocked_effect(
            q,
            queue_id,
            reason,
            now,
        ).0,
        QueueOp::Claim { instance_id, now } => claim_effect(q, instance_id, now).0,
        QueueOp::MarkSubmitted { queue_id, pty_epoch, now } => mark_submitted_effect(
            q,
            queue_id,
            pty_epoch,
            now,
        ).0,
        QueueOp::MarkAmbiguous { queue_id, error, known_epoch, now } => mark_ambiguous_effect(
            q,
            queue_id,
            error,
            known_epoch,
            now,
        ).0,
        QueueOp::Recover { now } => recover_effect(q, now),
        QueueOp::Orphan { known, times } => orphan_effect(q, known, times),
    }
}

/// The queue after a history of operations.
pub open spec fn run(q: QueueModel, ops: Seq<QueueOp>) -> QueueModel
    decreases ops.len(),
{
    if ops.len() == 0 {
        q
    } else {
        apply(run(q, ops.drop_last()), ops.last())
    }
}

/// The state diagram: the moves that a row can make in one operation.
pub open spec fn may_move(from: RowState, to: RowState) -> bool {
    match to {
        RowState::Queued | RowState::Other(_) => false,
        RowState::Blocked | RowState::Canceled => is_waiting_state(from),
        RowState::Attempting => is_waiting_state(from) || from is Ambiguous,
        RowState::Submitted | RowState::Ambiguous => from is Attempting,
        RowState::Acknowledged => is_inflight_state(from),
        RowState::Orphaned => is_waiting_state(from) || is_inflight_state(from),
    }
}

/// What one operation can do to a row: nothing, or a move of the state diagram that keeps what
/// the row is and does not take attempts back.
pub open spec fn row_evolves(before: RowModel, after: RowModel) -> bool {
    ||| after == before
    ||| {
        &&& may_move(before.state, after.state)
        &&& after.queue_id == before.queue_id
        &&& after.instance_id == before.instance_id
        &&& after.idempotency_key == before.idempotency_key
        &&& after.text == before.text
        &&& after.created_at_ms == before.created_at_ms
        &&& after.attempts == before.attempts || (after.state is Attempting && after.attempts
            == before.attempts + 1)
    }
}

/// What never changes of a row.
pub open spec fn same_identity(a: RowModel, b: RowModel) -> bool {
    &&& a.queue_id == b.queue_id
    &&& a.instance_id == b.instance_id
    &&& a.idempotency_key == b.idempotency_key
    &&& a.text == b.text
    &&& a.created_at_ms == b.created_at_ms
}

/// `op` replaced one row and logged it.
spec fn is_put(q: QueueModel, next: QueueModel) -> bool {
    exists|i: int, row: RowModel, now: i64|
        0 <= i < q.rows.len() && next == #[trigger] put_row(q, i, row, now) && row_evolves(
            q.rows[i],
            row,
        ) && may_move(q.rows[i].state, row.state) && row.updated_at_ms == now
}

/// An operation on one row leaves the queue as it is, replaces a row, or appends one.
proof fn lemma_shape(q: QueueModel, op: QueueOp)
    ensures
        match op {
            QueueOp::Recover { .. } | QueueOp::Orphan { .. } => true,
            QueueOp::Enqueue { instance_id, key, text, queue_id, now } => {
                let row = new_row(queue_id, instance_id, key, text, now);
                let next = apply(q, op);
                ||| next == q
                ||| {
                    &&& next.rows == q.rows.push(row)
                    &&& next.events == q.events.push(event_of(row, now))
                    &&& forall|j: int|
                        0 <= j < q.rows.len() ==> (#[trigger] q.rows[j]).queue_id != queue_id
                    &&& forall|j: int|
                        0 <= j < q.rows.len() && (#[trigger] q.rows[j]).instance_id == instance_id
                            ==> q.rows[j].idempotency_key != key
                }
            },
            _ => apply(q, op) == q || is_put(q, apply(q, op)),
        },
{
    match op {
        QueueOp::Enqueue { instance_id, key, text, queue_id, now } => {
            lemma_first_where(q.rows, by_id(queue_id));
            lemma_first_where(q.rows, by_key(instance_id, key));
            if apply(q, op) != q {
                assert forall|j: int| 0 <= j < q.rows.len() implies (
                #[trigger] q.rows[j]).queue_id != queue_id by {
                    assert(!by_id(queue_id)(q.rows[j]));
                }
                assert forall|j: int|
                    0 <= j < q.rows.len() && (#[trigger] q.rows[j]).instance_id
                        == instance_id implies q.rows[j].idempotency_key != key by {
                    assert(!by_key(instance_id, key)(q.rows[j]));
                }
            }
        },
        QueueOp::Cancel { queue_id, now } => {
            lemma_first_where(q.rows, by_id(queue_id));
        },
        QueueOp::Acknowledge { queue_id, now } => {
            lemma_first_where(q.rows, by_id(queue_id));
        },
        QueueOp::SetBlocked { queue_id, reason, now } => {
            lemma_first_where(q.rows, by_id(queue_id));
        },
        QueueOp::Claim { instance_id, now } => {
            lemma_first_where(q.rows, claimable(instance_id));
        },
        QueueOp::MarkSubmitted { queue_id, pty_epoch, now } => {
            lemma_first_where(q.rows, by_id(queue_id));
        },
        QueueOp::MarkAmbiguous { queue_id, error, known_epoch, now } => {
            lemma_first_where(q.rows, by_id(queue_id));
        },
        QueueOp::Recover { now } => {},
        QueueOp::Orphan { known, times } => {},
    }
}

/// An operation keeps every row where it is. Each row stays as it was or makes one move of the
/// state diagram, and keeps its id, its recipient, its key, its text and its creation time.
pub proof fn law_rows_evolve(q: QueueModel, op: QueueOp)
    ensures
        q.rows.len() <= apply(q, op).rows.len(),
        forall|i: int|
            0 <= i < q.rows.len() ==> row_evolves(#[trigger] q.rows[i], apply(q, op).rows[i]),
{
    lemma_shape(q, op);
}

/// The event log only grows, and a row that changed or came new has an entry for the state that
/// it is in now, written at the time of the change.
pub proof fn law_every_change_is_logged(q: QueueModel, op: QueueOp, i: int)
    requires
        0 <= i < apply(q, op).rows.len(),
    ensures
        q.events.is_prefix_of(apply(q, op).events),
        i >= q.rows.len() || apply(q, op).rows[i] != q.rows[i] ==> {
            let row = apply(q, op).rows[i];
            exists|e: int|
                q.events.len() <= e < apply(q, op).events.len() && #[trigger] apply(q, op).events[e]
                    == event_of(row, row.updated_at_ms)
        },
{
    let next = apply(q, op);
    lemma_shape(q, op);
    match op {
        QueueOp::Recover { now } => {
            let p = |i: int| q.rows[i].state is Attempting;
            let f = |i: int| event_of(interrupted_row(q.rows[i], now), now);
            if next.rows[i] != q.rows[i] {
                let k = lemma_gather_has(q.rows.len(), p, f, i);
                assert(next.events[q.events.len() + k] == f(i));
            }
        },
        QueueOp::Orphan { known, times } => {
            let p = |i: int| is_orphan(q.rows[i], known);
            let f = |i: int| event_of(orphaned_row(q.rows[i], times[i]), times[i]);
            if next != q && next.rows[i] != q.rows[i] {
                let k = lemma_gather_has(q.rows.len(), p, f, i);
                assert(next.events[q.events.len() + k] == f(i));
            }
        },
        _ => {
            if next != q {
                assert(next.events[q.events.len() as int] == next.events.last());
            }
        },
    }
}

/// Where `gather` puts `f(i)`.
pub proof fn lemma_gather_has<A>(n: nat, p: spec_fn(int) -> bool, f: spec_fn(int) -> A, i: int) -> (k:
    int)
    requires
        0 <= i < n,
        p(i),
    ensures
        0 <= k < gather(n, p, f).len(),
        gather(n, p, f)[k] == f(i),
    decreases n,
{
    if i == n - 1 {
        gather((n - 1) as nat, p, f).len() as int
    } else {
        lemma_gather_has((n - 1) as nat, p, f, i)
    }
}

/// What `gather` holds comes from an index that passes.
pub proof fn lemma_gather_only<A>(n: nat, p: spec_fn(int) -> bool, f: spec_fn(int) -> A, k: int) -> (i:
    int)
    requires
        0 <= k < gather(n, p, f).len(),
    ensures
        0 <= i < n,
        p(i),
        gather(n, p, f)[k] == f(i),
    decreases n,
{
    let rest = gather((n - 1) as nat, p, f);
    if k < rest.len() {
        lemma_gather_only((n - 1) as nat, p, f, k)
    } else {
        n - 1
    }
}

proof fn lemma_put_keeps_schema(q: QueueModel, i: int, row: RowModel, now: i64)
    requires
        schema_holds(q),
        0 <= i < q.rows.len(),
        same_identity(q.rows[i], row),
        row.attempts >= 0,
        is_inflight_state(row.state) ==> is_inflight_state(q.rows[i].state) || !other_inflight(
            q.rows,
            i,
        ),
    ensures
        schema_holds(put_row(q, i, row, now)),
{
    let next = put_row(q, i, row, now);
    assert forall|a: int, b: int|
        0 <= a < b < next.rows.len() && (#[trigger] next.rows[a]).instance_id == (
        #[trigger] next.rows[b]).instance_id implies !(is_inflight_state(next.rows[a].state)
        && is_inflight_state(next.rows[b].state)) by {
        assert(q.rows[a].instance_id == q.rows[b].instance_id);
        if a == i {
            assert(is_inflight_state(q.rows[b].state) ==> other_inflight(q.rows, i));
        }
        if b == i {
            assert(is_inflight_state(q.rows[a].state) ==> other_inflight(q.rows, i));
        }
    }
    assert forall|e: int| 0 <= e < next.events.len() implies logged_row_exists(
        next,
        #[trigger] next.events[e],
    ) by {
        if e < q.events.len() {
            assert(logged_row_exists(q, q.events[e]));
            let k = choose|k: int|
                0 <= k < q.rows.len() && (#[trigger] q.rows[k]).queue_id == q.events[e].queue_id
                    && q.rows[k].instance_id == q.events[e].instance_id;
            assert(next.rows[k].queue_id == next.events[e].queue_id);
        } else {
            assert(next.rows[i] == row);
        }
    }
}

proof fn lemma_put_keeps_lead(q: QueueModel, i: int, row: RowModel, now: i64)
    requires
        inflight_leads(q),
        0 <= i < q.rows.len(),
        same_identity(q.rows[i], row),
        is_waiting_state(row.state) ==> is_waiting_state(q.rows[i].state),
        is_inflight_state(row.state) ==> is_inflight_state(q.rows[i].state) || forall|j: int|
            0 <= j < i && (#[trigger] q.rows[j]).instance_id == q.rows[i].instance_id
                ==> !is_waiting_state(q.rows[j].state),
    ensures
        inflight_leads(put_row(q, i, row, now)),
{
    let next = put_row(q, i, row, now);
    assert forall|a: int, b: int|
        0 <= a < b < next.rows.len() && (#[trigger] next.rows[a]).instance_id == (
        #[trigger] next.rows[b]).instance_id && is_waiting_state(
            next.rows[a].state,
        ) implies !is_inflight_state(next.rows[b].state) by {
        assert(q.rows[a].instance_id == q.rows[b].instance_id);
        assert(is_waiting_state(q.rows[a].state));
    }
}

/// Whatever is done to the queue, the promises of its schema hold on: ids stay unique, a key
/// stays unique for its recipient, and an instance has at most one row in flight.
pub proof fn law_schema_is_kept(q: QueueModel, op: QueueOp)
    requires
        schema_holds(q),
    ensures
        schema_holds(apply(q, op)),
{
    let next = apply(q, op);
    match op {
        QueueOp::Enqueue { instance_id, key, text, queue_id, now } => {
            lemma_shape(q, op);
            if next != q {
                assert forall|e: int| 0 <= e < next.events.len() implies logged_row_exists(
                    next,
                    #[trigger] next.events[e],
                ) by {
                    if e < q.events.len() {
                        assert(logged_row_exists(q, q.events[e]));
                        let k = choose|k: int|
                            0 <= k < q.rows.len() && (#[trigger] q.rows[k]).queue_id
                                == q.events[e].queue_id && q.rows[k].instance_id
                                == q.events[e].instance_id;
                        assert(next.rows[k] == q.rows[k]);
                    } else {
                        assert(next.rows[q.rows.len() as int].queue_id == queue_id);
                    }
                }
            }
        },
        QueueOp::Cancel { queue_id, now } => {
            lemma_first_where(q.rows, by_id(queue_id));
            if next != q {
                let i = first_where(q.rows, by_id(queue_id))->0;
                lemma_put_keeps_schema(q, i, next.rows[i], now);
            }
        },
        QueueOp::Acknowledge { queue_id, now } => {
            lemma_first_where(q.rows, by_id(queue_id));
            if next != q {
                let i = first_where(q.rows, by_id(queue_id))->0;
                lemma_put_keeps_schema(q, i, next.rows[i], now);
            }
        },
        QueueOp::SetBlocked { queue_id, reason, now } => {
            lemma_first_where(q.rows, by_id(queue_id));
            if next != q {
                let i = first_where(q.rows, by_id(queue_id))->0;
                lemma_put_keeps_schema(q, i, next.rows[i], now);
            }
        },
        QueueOp::Claim { instance_id, now } => {
            lemma_first_where(q.rows, claimable(instance_id));
            if next != q {
                let i = first_where(q.rows, claimable(instance_id))->0;
                lemma_put_keeps_schema(q, i, next.rows[i], now);
            }
        },
        QueueOp::MarkSubmitted { queue_id, pty_epoch, now } => {
            lemma_first_where(q.rows, by_id(queue_id));
            if next != q {
                let i = first_where(q.rows, by_id(queue_id))->0;
                lemma_put_keeps_schema(q, i, next.rows[i], now);
            }
        },
        QueueOp::MarkAmbiguous { queue_id, error, known_epoch, now } => {
            lemma_first_where(q.rows, by_id(queue_id));
            if next != q {
                let i = first_where(q.rows, by_id(queue_id))->0;
                lemma_put_keeps_schema(q, i, next.rows[i], now);
            }
        },
        QueueOp::Recover { now } => {
            let p = |i: int| q.rows[i].state is Attempting;
            let f = |i: int| event_of(interrupted_row(q.rows[i], now), now);
            lemma_bulk_events(q, next, p, f);
        },
        QueueOp::Orphan { known, times } => {
            let p = |i: int| is_orphan(q.rows[i], known);
            let f = |i: int| event_of(orphaned_row(q.rows[i], times[i]), times[i]);
            if list_effect(q, None, None) is Ok {
                lemma_bulk_events(q, next, p, f);
            }
        },
    }
}

/// Logging changes to rows that are there keeps every entry about a row that is there.
proof fn lemma_bulk_events(
    q: QueueModel,
    next: QueueModel,
    p: spec_fn(int) -> bool,
    f: spec_fn(int) -> EventModel,
)
    requires
        schema_holds(q),
        next.rows.len() == q.rows.len(),
        forall|i: int| 0 <= i < q.rows.len() ==> same_identity(q.rows[i], #[trigger] next.rows[i]),
        next.events == q.events + gather(q.rows.len(), p, f),
        forall|i: int|
            0 <= i < q.rows.len() && #[trigger] p(i) ==> f(i).queue_id == q.rows[i].queue_id && f(
                i,
            ).instance_id == q.rows[i].instance_id,
    ensures
        forall|e: int|
            0 <= e < next.events.len() ==> logged_row_exists(next, #[trigger] next.events[e]),
{
    assert forall|e: int| 0 <= e < next.events.len() implies logged_row_exists(
        next,
        #[trigger] next.events[e],
    ) by {
        if e < q.events.len() {
            assert(logged_row_exists(q, q.events[e]));
            let k = choose|k: int|
                0 <= k < q.rows.len() && (#[trigger] q.rows[k]).queue_id == q.events[e].queue_id
                    && q.rows[k].instance_id == q.events[e].instance_id;
            assert(same_identity(q.rows[k], next.rows[k]));
        } else {
            let k = lemma_gather_only(q.rows.len(), p, f, e - q.events.len());
            assert(same_identity(q.rows[k], next.rows[k]));
        }
    }
}

/// Whatever is done to the queue, no row of an instance comes to wait in front of one in flight.
pub proof fn law_order_is_kept(q: QueueModel, op: QueueOp)
    requires
        inflight_leads(q),
    ensures
        inflight_leads(apply(q, op)),
{
    let next = apply(q, op);
    match op {
        QueueOp::Enqueue { instance_id, key, text, queue_id, now } => {
            lemma_shape(q, op);
        },
        QueueOp::Cancel { queue_id, now } => {
            lemma_first_where(q.rows, by_id(queue_id));
            if next != q {
                let i = first_where(q.rows, by_id(queue_id))->0;
                lemma_put_keeps_lead(q, i, next.rows[i], now);
            }
        },
        QueueOp::Acknowledge { queue_id, now } => {
            lemma_first_where(q.rows, by_id(queue_id));
            if next != q {
                let i = first_where(q.rows, by_id(queue_id))->0;
                lemma_put_keeps_lead(q, i, next.rows[i], now);
            }
        },
        QueueOp::SetBlocked { queue_id, reason, now } => {
            lemma_first_where(q.rows, by_id(queue_id));
            if next != q {
                let i = first_where(q.rows, by_id(queue_id))->0;
                lemma_put_keeps_lead(q, i, next.rows[i], now);
            }
        },
        QueueOp::Claim { instance_id, now } => {
            lemma_first_where(q.rows, claimable(instance_id));
            if next != q {
                let i = first_where(q.rows, claimable(instance_id))->0;
                assert forall|j: int|
                    0 <= j < i && (#[trigger] q.rows[j]).instance_id
                        == q.rows[i].instance_id implies !is_waiting_state(q.rows[j].state) by {
                    assert(!claimable(instance_id)(q.rows[j]));
                }
                lemma_put_keeps_lead(q, i, next.rows[i], now);
            }
        },
        QueueOp::MarkSubmitted { queue_id, pty_epoch, now } => {
            lemma_first_where(q.rows, by_id(queue_id));
            if next != q {
                let i = first_where(q.rows, by_id(queue_id))->0;
                lemma_put_keeps_lead(q, i, next.rows[i], now);
            }
        },
        QueueOp::MarkAmbiguous { queue_id, error, known_epoch, now } => {
            lemma_first_where(q.rows, by_id(queue_id));
            if next != q {
                let i = first_where(q.rows, by_id(queue_id))->0;
                lemma_put_keeps_lead(q, i, next.rows[i], now);
            }
        },
        QueueOp::Recover { now } => {},
        QueueOp::Orphan { known, times } => {},
    }
}

/// A sound queue stays sound, whatever is done to it.
pub proof fn law_soundness_is_kept(q: QueueModel, op: QueueOp)
    requires
        sound(q),
    ensures
        sound(apply(q, op)),
{
    law_schema_is_kept(q, op);
    law_order_is_kept(q, op);
}

/// Every history that starts from an empty queue keeps the promises of the schema and the order
/// of delivery.
pub proof fn law_every_history_is_sound(ops: Seq<QueueOp>)
    ensures
        schema_holds(run(empty_queue(), ops)),
        inflight_leads(run(empty_queue(), ops)),
    decreases ops.len(),
{
    if ops.len() > 0 {
        law_every_history_is_sound(ops.drop_last());
        law_schema_is_kept(run(empty_queue(), ops.drop_last()), ops.last());
        law_order_is_kept(run(empty_queue(), ops.drop_last()), ops.last());
    }
}

/// Rows are kept forever, with their id, recipient, key, text and creation time. A settled row is
/// never touched again, nor is one that cannot be read, and a row that can be read stays so.
pub proof fn law_rows_are_kept(q: QueueModel, ops: Seq<QueueOp>, i: int)
    requires
        0 <= i < q.rows.len(),
    ensures
        q.rows.len() <= run(q, ops).rows.len(),
        same_identity(q.rows[i], run(q, ops).rows[i]),
        is_settled_state(q.rows[i].state) || q.rows[i].state is Other ==> run(q, ops).rows[i]
            == q.rows[i],
        !(q.rows[i].state is Other) ==> !(run(q, ops).rows[i].state is Other),
        q.rows[i].attempts <= run(q, ops).rows[i].attempts,
    decreases ops.len(),
{
    if ops.len() > 0 {
        law_rows_are_kept(q, ops.drop_last(), i);
        law_rows_evolve(run(q, ops.drop_last()), ops.last());
        assert(row_evolves(run(q, ops.drop_last()).rows[i], run(q, ops).rows[i]));
    }
}

proof fn lemma_run_keeps_schema(q: QueueModel, ops: Seq<QueueOp>)
    requires
        schema_holds(q),
    ensures
        schema_holds(run(q, ops)),
    decreases ops.len(),
{
    if ops.len() > 0 {
        lemma_run_keeps_schema(q, ops.drop_last());
        law_schema_is_kept(run(q, ops.drop_last()), ops.last());
    }
}

/// An idempotency key stands for the same row forever: whatever happened since, enqueueing under
/// it again gives that row back and changes nothing, a different text is refused, and a row that
/// cannot be read is an error.
pub proof fn law_enqueueing_is_idempotent(
    q: QueueModel,
    i: int,
    ops: Seq<QueueOp>,
    text: Seq<char>,
    queue_id: Seq<char>,
    now: i64,
)
    requires
        schema_holds(q),
        0 <= i < q.rows.len(),
    ensures
        ({
            let later = run(q, ops);
            let row = q.rows[i];
            let (next, r) = enqueue_effect(
                later,
                row.instance_id,
                row.idempotency_key,
                text,
                queue_id,
                now,
            );
            &&& next == later
            &&& later.rows[i].queue_id == row.queue_id
            &&& if row.state is Other {
                r is Err && r->Err_0 == read_row(row)->Err_0
            } else if text == row.text {
                r == Ok::<OutcomeModel, QueueErrorModel>(
                    OutcomeModel { receipt: receipt_of(later.rows[i]), duplicate: true },
                )
            } else {
                r == Err::<OutcomeModel, QueueErrorModel>(
                    QueueErrorModel::IdempotencyConflict(receipt_of(later.rows[i])),
                )
            }
        }),
{
    let later = run(q, ops);
    law_rows_are_kept(q, ops, i);
    lemma_run_keeps_schema(q, ops);
    let p = by_key(q.rows[i].instance_id, q.rows[i].idempotency_key);
    assert forall|j: int| 0 <= j < i implies !p(#[trigger] later.rows[j]) by {
        assert(later.rows[i].idempotency_key == q.rows[i].idempotency_key);
    }
    lemma_first_where_is(later.rows, p, i);
}

/// Keys are scoped to their recipient: a key that only other instances have used is new, and
/// enqueueing under it appends a row with the given id.
pub proof fn law_keys_are_scoped_to_the_recipient(
    q: QueueModel,
    instance_id: Seq<char>,
    key: Seq<char>,
    text: Seq<char>,
    queue_id: Seq<char>,
    now: i64,
)
    requires
        forall|j: int|
            0 <= j < q.rows.len() && (#[trigger] q.rows[j]).idempotency_key == key
                ==> q.rows[j].instance_id != instance_id,
        forall|j: int| 0 <= j < q.rows.len() ==> (#[trigger] q.rows[j]).queue_id != queue_id,
    ensures
        ({
            let (next, r) = enqueue_effect(q, instance_id, key, text, queue_id, now);
            let row = new_row(queue_id, instance_id, key, text, now);
            &&& next.rows == q.rows.push(row)
            &&& r == Ok::<_, QueueErrorModel>(
                OutcomeModel { receipt: receipt_of(row), duplicate: false },
            )
        }),
{
    lemma_first_where_none(q.rows, by_key(instance_id, key));
    lemma_first_where_none(q.rows, by_id(queue_id));
}

/// A new row that was enqueued can be looked up by its id and is listed last.
pub proof fn law_enqueued_row_is_found(
    q: QueueModel,
    instance_id: Seq<char>,
    key: Seq<char>,
    text: Seq<char>,
    queue_id: Seq<char>,
    now: i64,
)
    ensures
        ({
            let (next, r) = enqueue_effect(q, instance_id, key, text, queue_id, now);
            r is Ok && !r->Ok_0.duplicate ==> {
                &&& get_effect(next, queue_id) == Ok::<_, QueueErrorModel>(r->Ok_0.receipt)
                &&& list_effect(next, None, None) == match list_effect(q, None, None) {
                    Ok(listed) => Ok(listed.push(r->Ok_0.receipt)),
                    Err(e) => Err(e),
                }
            }
        }),
{
    let op = QueueOp::Enqueue { instance_id, key, text, queue_id, now };
    let (next, r) = enqueue_effect(q, instance_id, key, text, queue_id, now);
    lemma_shape(q, op);
    if r is Ok && !r->Ok_0.duplicate {
        assert(next.rows.len() == q.rows.len() + 1) by {
            lemma_first_where(q.rows, by_key(instance_id, key));
        }
        assert forall|j: int| 0 <= j < q.rows.len() implies !by_id(queue_id)(
            #[trigger] next.rows[j],
        ) by {
            assert(next.rows[j] == q.rows[j]);
        }
        lemma_first_where_is(next.rows, by_id(queue_id), q.rows.len() as int);
        law_list_shows_every_row(q);
        law_list_shows_every_row(next);
        let stops = stops_listing(None, None);
        assert(next.rows.drop_last() =~= q.rows);
        assert(first_where(next.rows, stops) == first_where(q.rows, stops));
        lemma_first_where(q.rows, stops);
        if list_effect(q, None, None) is Ok {
            assert(list_effect(next, None, None)->Ok_0 =~= list_effect(q, None, None)->Ok_0.push(
                r->Ok_0.receipt,
            ));
        }
    }
}

/// Without filters, the list shows every row once, in the order of enqueueing, if all of them can
/// be read.
pub proof fn law_list_shows_every_row(q: QueueModel)
    ensures
        list_effect(q, None, None) is Ok <==> forall|i: int|
            0 <= i < q.rows.len() ==> !((#[trigger] q.rows[i]).state is Other),
        list_effect(q, None, None) is Ok ==> list_effect(q, None, None)->Ok_0
            == q.rows.map_values(|row: RowModel| receipt_of(row)),
{
    let p = |i: int| is_listed(q.rows[i], None, None);
    let f = |i: int| receipt_of(q.rows[i]);
    let stops = stops_listing(None, None);
    lemma_gather_all(q.rows.len(), p, f);
    lemma_first_where(q.rows, stops);
    if list_effect(q, None, None) is Ok {
        assert forall|i: int| 0 <= i < q.rows.len() implies !((#[trigger] q.rows[i]).state is Other) by {
            assert(!stops(q.rows[i]));
        }
    } else {
        assert(q.rows[first_where(q.rows, stops)->0].state is Other);
    }
    assert(listed_receipts(q, None, None) =~= q.rows.map_values(|row: RowModel| receipt_of(row)));
}

proof fn lemma_gather_all<A>(n: nat, p: spec_fn(int) -> bool, f: spec_fn(int) -> A)
    requires
        forall|i: int| 0 <= i < n ==> #[trigger] p(i),
    ensures
        gather(n, p, f) == Seq::new(n, f),
    decreases n,
{
    if n > 0 {
        lemma_gather_all((n - 1) as nat, p, f);
        assert(p(n - 1));
    }
    assert(gather(n, p, f) =~= Seq::new(n, f));
}

/// A list is given exactly when every row that passes the filters can be read, and holds a receipt
/// exactly when some such row has it.
pub proof fn law_list_passes_the_filters(
    q: QueueModel,
    instance_id: Option<Seq<char>>,
    state: Option<AgentQueueState>,
    receipt: ReceiptModel,
)
    ensures
        list_effect(q, instance_id, state) is Ok <==> forall|i: int|
            0 <= i < q.rows.len() && is_listed(#[trigger] q.rows[i], instance_id, state) ==> !(
            q.rows[i].state is Other),
        list_effect(q, instance_id, state) is Ok ==> (list_effect(
            q,
            instance_id,
            state,
        )->Ok_0.contains(receipt) <==> exists|i: int|
            0 <= i < q.rows.len() && is_listed(#[trigger] q.rows[i], instance_id, state)
                && receipt_of(q.rows[i]) == receipt),
{
    let stops = stops_listing(instance_id, state);
    lemma_first_where(q.rows, stops);
    if list_effect(q, instance_id, state) is Ok {
        assert forall|i: int|
            0 <= i < q.rows.len() && is_listed(
                #[trigger] q.rows[i],
                instance_id,
                state,
            ) implies !(q.rows[i].state is Other) by {
            assert(!stops(q.rows[i]));
        }
    } else {
        assert(stops(q.rows[first_where(q.rows, stops)->0]));
    }
    let p = |i: int| is_listed(q.rows[i], instance_id, state);
    let f = |i: int| receipt_of(q.rows[i]);
    let listed = listed_receipts(q, instance_id, state);
    if listed.contains(receipt) {
        let k = choose|k: int| 0 <= k < listed.len() && listed[k] == receipt;
        let i = lemma_gather_only(q.rows.len(), p, f, k);
        assert(is_listed(q.rows[i], instance_id, state));
    }
    if exists|i: int|
        0 <= i < q.rows.len() && is_listed(#[trigger] q.rows[i], instance_id, state) && receipt_of(
            q.rows[i],
        ) == receipt {
        let i = choose|i: int|
            0 <= i < q.rows.len() && is_listed(#[trigger] q.rows[i], instance_id, state)
                && receipt_of(q.rows[i]) == receipt;
        let k = lemma_gather_has(q.rows.len(), p, f, i);
        assert(listed[k] == receipt);
    }
}

} // verus!
