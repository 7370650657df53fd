//! What has to be written to the database after an operation: the rows to insert, the rows to
//! update, and the log entries to add.
use crate::queue::laws::{
    QueueOp, law_every_change_is_logged, law_rows_are_kept, lemma_gather_has, lemma_gather_only,
    run,
};
use crate::queue::model::{
    EventModel, QueueModel, RowModel, by_id, event_of, first_where, gather, lemma_first_where,
    schema_holds,
};
use crate::queue::row::{QueueEvent, StoredRow};
use crate::queue::scope_laws::{current, kept, lemma_filter_places, lemma_row_of_part, part};
use vstd::prelude::*;

verus! {

/// The rows to insert, the rows to update by their ids, and the log entries to add.
#[derive(Debug, PartialEq, Eq)]
pub struct RowChanges {
    pub inserted: Vec<StoredRow>,
    pub updated: Vec<StoredRow>,
    pub logged: Vec<QueueEvent>,
}

/// The contents of [`RowChanges`].
#[verifier::ext_equal]
pub struct ChangesModel {
    pub inserted: Seq<RowModel>,
    pub updated: Seq<RowModel>,
    pub logged: Seq<EventModel>,
}

impl View for RowChanges {
    type V = ChangesModel;

    open spec fn view(&self) -> ChangesModel {
        ChangesModel {
            inserted: self.inserted@.map_values(|row: StoredRow| row@),
            updated: self.updated@.map_values(|row: StoredRow| row@),
            logged: self.logged@.map_values(|event: QueueEvent| event@),
        }
    }
}

/// One of `events` is about the row `queue_id`.
pub open spec fn is_logged(events: Seq<EventModel>, queue_id: Seq<char>) -> bool {
    exists|e: int| 0 <= e < events.len() && (#[trigger] events[e]).queue_id == queue_id
}

/// `n`, or `limit` where `n` is larger.
pub open spec fn at_most(n: nat, limit: nat) -> nat {
    if n <= limit {
        n
    } else {
        limit
    }
}

/// The changes since the queue had `rows` rows and `events` log entries: the rows that came after
/// them, and of the others those that a new log entry is about.
pub open spec fn changes(q: QueueModel, rows: nat, events: nat) -> ChangesModel {
    let logged = q.events.skip(events as int);
    ChangesModel {
        inserted: q.rows.skip(rows as int),
        updated: gather(
            rows,
            |i: int| is_logged(logged, q.rows[i].queue_id),
            |i: int| q.rows[i],
        ),
        logged,
    }
}

/// The queue with the changes written: rows updated by their ids, rows inserted at the end, and
/// log entries added.
pub open spec fn written(q: QueueModel, c: ChangesModel) -> QueueModel {
    QueueModel {
        rows: q.rows.map_values(
            |row: RowModel|
                match first_where(c.updated, by_id(row.queue_id)) {
                    Some(k) => c.updated[k],
                    None => row,
                },
        ) + c.inserted,
        events: q.events + c.logged,
    }
}

/// `q` came from `before` by logged changes: rows keep their places and their ids, which are
/// unique, the log has only grown, and it tells of every row that is not as it was.
pub open spec fn leads(before: QueueModel, q: QueueModel) -> bool {
    &&& before.rows.len() <= q.rows.len()
    &&& before.events.is_prefix_of(q.events)
    &&& forall|i: int, j: int|
        0 <= i < j < before.rows.len() ==> (#[trigger] before.rows[i]).queue_id != (
        #[trigger] before.rows[j]).queue_id
    &&& forall|i: int|
        0 <= i < before.rows.len() ==> (#[trigger] q.rows[i]).queue_id == before.rows[i].queue_id
    &&& forall|i: int|
        0 <= i < before.rows.len() && #[trigger] q.rows[i] != before.rows[i] ==> is_logged(
            q.events.skip(before.events.len() as int),
            q.rows[i].queue_id,
        )
}

/// What the changes say of a row that was there before.
proof fn lemma_updated_row(before: QueueModel, q: QueueModel, i: int)
    requires
        leads(before, q),
        0 <= i < before.rows.len(),
    ensures
        ({
            let updated = changes(q, before.rows.len(), before.events.len()).updated;
            match first_where(updated, by_id(before.rows[i].queue_id)) {
                Some(k) => updated[k] == q.rows[i],
                None => q.rows[i] == before.rows[i],
            }
        }),
{
    let n = before.rows.len();
    let logged = q.events.skip(before.events.len() as int);
    let p = |j: int| is_logged(logged, q.rows[j].queue_id);
    let f = |j: int| q.rows[j];
    let updated = changes(q, n, before.events.len()).updated;
    assert(updated == gather(n, p, f));
    let id = by_id(before.rows[i].queue_id);
    lemma_first_where(updated, id);
    match first_where(updated, id) {
        Some(k) => {
            let j = lemma_gather_only(n, p, f, k);
            assert(q.rows[j].queue_id == before.rows[i].queue_id);
            assert(before.rows[j].queue_id == before.rows[i].queue_id);
        },
        None => {
            if q.rows[i] != before.rows[i] {
                assert(p(i));
                let k = lemma_gather_has(n, p, f, i);
                assert(id(updated[k]));
            }
        },
    }
}

/// Writing the changes leads from the queue as it was to the queue as it is.
pub proof fn law_changes_lead_to_the_present(before: QueueModel, q: QueueModel)
    requires
        leads(before, q),
    ensures
        written(before, changes(q, before.rows.len(), before.events.len())) == q,
{
    let c = changes(q, before.rows.len(), before.events.len());
    let whole = written(before, c);
    assert forall|i: int| 0 <= i < before.rows.len() implies whole.rows[i] == #[trigger] q.rows[i] by {
        lemma_updated_row(before, q, i);
    }
    assert(whole.rows =~= q.rows);
    assert(whole.events =~= q.events);
}

/// Whatever is done to a queue with unique ids, its changes can be told from its log.
pub proof fn law_operations_are_told_by_the_log(q: QueueModel, ops: Seq<QueueOp>)
    requires
        schema_holds(q),
    ensures
        leads(q, run(q, ops)),
    decreases ops.len(),
{
    let end = run(q, ops);
    if ops.len() == 0 {
    } else {
        let mid = run(q, ops.drop_last());
        law_operations_are_told_by_the_log(q, ops.drop_last());
        assert forall|i: int| 0 <= i < q.rows.len() implies (#[trigger] end.rows[i]).queue_id
            == q.rows[i].queue_id && (end.rows[i] != q.rows[i] ==> is_logged(
            end.events.skip(q.events.len() as int),
            end.rows[i].queue_id,
        )) by {
            law_rows_are_kept(q, ops, i);
            law_every_change_is_logged(mid, ops.last(), i);
            let late = end.events.skip(q.events.len() as int);
            let early = mid.events.skip(q.events.len() as int);
            if end.rows[i] != mid.rows[i] {
                let row = end.rows[i];
                let e = choose|e: int|
                    mid.events.len() <= e < end.events.len() && #[trigger] end.events[e]
                        == event_of(row, row.updated_at_ms);
                assert(late[e - q.events.len()].queue_id == row.queue_id);
            } else if end.rows[i] != q.rows[i] {
                assert(is_logged(early, mid.rows[i].queue_id));
                let e = choose|e: int|
                    0 <= e < early.len() && (#[trigger] early[e]).queue_id == mid.rows[i].queue_id;
                assert(late[e] == early[e]);
            }
        }
        if q.rows.len() > 0 {
            law_rows_are_kept(q, ops, 0);
            law_every_change_is_logged(mid, ops.last(), 0);
        } else if end.rows.len() > 0 {
            law_every_change_is_logged(mid, ops.last(), 0);
        }
    }
}

/// Writing the changes of a part into the whole queue is keeping the part.
pub proof fn law_written_changes_are_kept(
    q: QueueModel,
    p: spec_fn(RowModel) -> bool,
    changed: QueueModel,
)
    requires
        schema_holds(q),
        leads(part(q, p), changed),
    ensures
        written(q, changes(changed, part(q, p).rows.len(), 0)) == kept(q, p, changed),
{
    let before = part(q, p);
    let n = before.rows.len();
    let c = changes(changed, n, 0);
    let whole = written(q, c);
    let goal = kept(q, p, changed);
    let places = lemma_filter_places(q.rows, p);
    let logged = changed.events.skip(0);
    let pick = |j: int| is_logged(logged, changed.rows[j].queue_id);
    let f = |j: int| changed.rows[j];
    assert(c.updated == gather(n, pick, f));
    assert forall|i: int| 0 <= i < q.rows.len() implies whole.rows[i] == #[trigger] goal.rows[i] by {
        let id = by_id(q.rows[i].queue_id);
        lemma_first_where(c.updated, id);
        if p(q.rows[i]) {
            lemma_row_of_part(q, p, i);
            lemma_first_where(before.rows, id);
            let k = first_where(before.rows, id)->0;
            lemma_updated_row(before, changed, k);
            lemma_first_where(changed.rows, id);
            assert(id(changed.rows[k]));
            let at = first_where(changed.rows, id)->0;
            assert(at <= k) by {
                if k < at {
                    assert(!id(changed.rows[k]));
                }
            }
            assert(before.rows[at].queue_id == before.rows[k].queue_id);
            assert(at == k);
            assert(current(changed, q.rows[i]) == changed.rows[k]);
        } else if first_where(c.updated, id) is Some {
            let j = lemma_gather_only(n, pick, f, first_where(c.updated, id)->0);
            assert(before.rows[j].queue_id == q.rows[i].queue_id);
            assert(q.rows[places[j]].queue_id == q.rows[i].queue_id);
        }
    }
    assert(whole.rows =~= goal.rows);
    assert(whole.events =~= goal.events);
}

} // verus!
