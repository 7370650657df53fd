//! Which rows an operation needs: it can be carried out on those alone, and what it changed be
//! kept in the whole queue.
use crate::queue::laws::{QueueOp, apply, law_list_shows_every_row};
use crate::queue::model::{
    QueueModel, RowModel, acknowledge_effect, being_delivered, by_id, by_key, cancel_effect,
    claim_effect, claimable, enqueue_effect, first_where, gather, is_inflight_state, is_orphan,
    lemma_first_where, lemma_first_where_is, lemma_first_where_none, mark_ambiguous_effect,
    mark_submitted_effect, orphan_effect, orphaned_row, other_inflight, put_row, schema_holds,
    set_blocked_effect,
};
use vstd::prelude::*;

verus! {

/// Rows of an instance.
pub open spec fn of_instance(instance_id: Seq<char>) -> spec_fn(RowModel) -> bool {
    |row: RowModel| row.instance_id == instance_id
}

/// The rows of the queue that satisfy `p`, with a log that starts here.
pub open spec fn part(q: QueueModel, p: spec_fn(RowModel) -> bool) -> QueueModel {
    QueueModel { rows: q.rows.filter(p), events: Seq::empty() }
}

/// The row as it is in `changed`.
pub open spec fn current(changed: QueueModel, row: RowModel) -> RowModel {
    match first_where(changed.rows, by_id(row.queue_id)) {
        Some(k) => changed.rows[k],
        None => row,
    }
}

/// The queue with the changes that were made to its part: the rows of the part as they are now,
/// the rows that are new, and the log of the changes.
pub open spec fn kept(
    q: QueueModel,
    p: spec_fn(RowModel) -> bool,
    changed: QueueModel,
) -> QueueModel {
    QueueModel {
        rows: q.rows.map_values(
            |row: RowModel|
                if p(row) {
                    current(changed, row)
                } else {
                    row
                },
        ) + changed.rows.skip(q.rows.filter(p).len() as int),
        events: q.events + changed.events,
    }
}

/// The rows that an operation on a row, or on the rows of an instance, needs.
pub open spec fn needs(op: QueueOp) -> spec_fn(RowModel) -> bool {
    match op {
        QueueOp::Enqueue { instance_id, .. } => of_instance(instance_id),
        QueueOp::Claim { instance_id, .. } => of_instance(instance_id),
        QueueOp::Cancel { queue_id, .. } => by_id(queue_id),
        QueueOp::Acknowledge { queue_id, .. } => by_id(queue_id),
        QueueOp::SetBlocked { queue_id, .. } => by_id(queue_id),
        QueueOp::MarkSubmitted { queue_id, .. } => by_id(queue_id),
        QueueOp::MarkAmbiguous { queue_id, .. } => by_id(queue_id),
        _ => |row: RowModel| true,
    }
}

/// Where the elements of a filtered sequence come from.
pub proof fn lemma_filter_places<A>(s: Seq<A>, p: spec_fn(A) -> bool) -> (places: Seq<int>)
    ensures
        places.len() == s.filter(p).len(),
        forall|k: int|
            0 <= k < places.len() ==> 0 <= #[trigger] places[k] < s.len() && s.filter(p)[k]
                == s[places[k]] && p(s[places[k]]),
        forall|j: int, k: int|
            0 <= j < k < places.len() ==> #[trigger] places[j] < #[trigger] places[k],
        forall|i: int| 0 <= i < s.len() && p(#[trigger] s[i]) ==> places.contains(i),
    decreases s.len(),
{
    reveal(Seq::filter);
    if s.len() == 0 {
        Seq::empty()
    } else {
        let init = s.drop_last();
        let before = lemma_filter_places(init, p);
        let n = s.len() - 1;
        let places = if p(s.last()) {
            before.push(n)
        } else {
            before
        };
        assert forall|i: int| 0 <= i < s.len() && p(#[trigger] s[i]) implies places.contains(i) by {
            if i < n {
                assert(init[i] == s[i]);
                assert(before.contains(i));
                let k = before.index_of(i);
                assert(places[k] == i);
            } else {
                assert(places[places.len() - 1] == n);
            }
        }
        places
    }
}

/// The first match in a filtered sequence is the first match in the whole one.
proof fn lemma_same_match<A>(s: Seq<A>, p: spec_fn(A) -> bool, r: spec_fn(A) -> bool)
    requires
        forall|x: A| #[trigger] r(x) ==> p(x),
    ensures
        first_where(s.filter(p), r) is Some <==> first_where(s, r) is Some,
        first_where(s, r) matches Some(i) ==> s.filter(p)[first_where(s.filter(p), r)->0] == s[i],
{
    let places = lemma_filter_places(s, p);
    lemma_first_where(s, r);
    lemma_first_where(s.filter(p), r);
    match first_where(s, r) {
        Some(i) => {
            assert(p(s[i]));
            let k = places.index_of(i);
            assert forall|j: int| 0 <= j < k implies !r(#[trigger] s.filter(p)[j]) by {
                assert(places[j] < places[k]);
                assert(!r(s[places[j]]));
            }
            lemma_first_where_is(s.filter(p), r, k);
        },
        None => {
            assert forall|j: int| 0 <= j < s.filter(p).len() implies !r(
                #[trigger] s.filter(p)[j],
            ) by {
                assert(!r(s[places[j]]));
            }
            lemma_first_where_none(s.filter(p), r);
        },
    }
}

/// A row of a queue with unique ids is found in the part that it belongs to.
pub proof fn lemma_row_of_part(q: QueueModel, p: spec_fn(RowModel) -> bool, i: int)
    requires
        schema_holds(q),
        0 <= i < q.rows.len(),
        p(q.rows[i]),
    ensures
        first_where(part(q, p).rows, by_id(q.rows[i].queue_id)) is Some,
        part(q, p).rows[first_where(part(q, p).rows, by_id(q.rows[i].queue_id))->0] == q.rows[i],
{
    let rows = part(q, p).rows;
    let id = by_id(q.rows[i].queue_id);
    let places = lemma_filter_places(q.rows, p);
    let k = places.index_of(i);
    assert(rows[k] == q.rows[i]);
    lemma_first_where(rows, id);
    let found = first_where(rows, id)->0;
    assert(first_where(rows, id) is Some);
    assert(q.rows[places[found]].queue_id == q.rows[i].queue_id);
}

/// Keeping a part that was not changed changes nothing.
proof fn lemma_kept_unchanged(q: QueueModel, p: spec_fn(RowModel) -> bool)
    requires
        schema_holds(q),
    ensures
        kept(q, p, part(q, p)) == q,
{
    let k = kept(q, p, part(q, p));
    assert forall|i: int| 0 <= i < q.rows.len() implies k.rows[i] == #[trigger] q.rows[i] by {
        if p(q.rows[i]) {
            lemma_row_of_part(q, p, i);
        }
    }
    assert(k.rows =~= q.rows);
    assert(k.events =~= q.events);
}

/// Keeping a part in which a row was replaced replaces the row.
proof fn lemma_kept_put(
    q: QueueModel,
    p: spec_fn(RowModel) -> bool,
    r: spec_fn(RowModel) -> bool,
    row: RowModel,
    now: i64,
)
    requires
        schema_holds(q),
        forall|x: RowModel| #[trigger] r(x) ==> p(x),
        first_where(q.rows, r) is Some,
        row.queue_id == q.rows[first_where(q.rows, r)->0].queue_id,
    ensures
        first_where(part(q, p).rows, r) is Some,
        part(q, p).rows[first_where(part(q, p).rows, r)->0] == q.rows[first_where(q.rows, r)->0],
        kept(q, p, put_row(part(q, p), first_where(part(q, p).rows, r)->0, row, now)) == put_row(
            q,
            first_where(q.rows, r)->0,
            row,
            now,
        ),
{
    lemma_same_match(q.rows, p, r);
    lemma_first_where(q.rows, r);
    lemma_first_where(part(q, p).rows, r);
    let i = first_where(q.rows, r)->0;
    let k = first_where(part(q, p).rows, r)->0;
    let changed = put_row(part(q, p), k, row, now);
    let whole = kept(q, p, changed);
    let next = put_row(q, i, row, now);
    let places = lemma_filter_places(q.rows, p);
    assert forall|j: int| 0 <= j < q.rows.len() implies whole.rows[j] == #[trigger] next.rows[j] by {
        if p(q.rows[j]) {
            let id = by_id(q.rows[j].queue_id);
            lemma_row_of_part(q, p, j);
            let at = first_where(part(q, p).rows, id)->0;
            lemma_first_where(part(q, p).rows, id);
            assert forall|m: int| 0 <= m < at implies !id(#[trigger] changed.rows[m]) by {
                assert(!id(part(q, p).rows[m]));
            }
            assert(id(changed.rows[at]));
            lemma_first_where_is(changed.rows, id, at);
            if j == i {
                assert(q.rows[places[at]].queue_id == q.rows[places[k]].queue_id);
                assert(at == k) by {
                    if at < k {
                        assert(places[at] < places[k]);
                    } else if k < at {
                        assert(places[k] < places[at]);
                    }
                }
            } else {
                assert(at != k);
            }
        }
    }
    assert(changed.rows.skip(q.rows.filter(p).len() as int) =~= Seq::empty());
    assert(whole.rows =~= next.rows);
    assert(whole.events =~= next.events);
}

/// Keeping a part to which a row with a new id was appended appends the row.
proof fn lemma_kept_push(
    q: QueueModel,
    p: spec_fn(RowModel) -> bool,
    changed: QueueModel,
    row: RowModel,
)
    requires
        schema_holds(q),
        changed.rows == part(q, p).rows.push(row),
    ensures
        kept(q, p, changed).rows == q.rows.push(row),
{
    let whole = kept(q, p, changed);
    let places = lemma_filter_places(q.rows, p);
    assert forall|j: int| 0 <= j < q.rows.len() implies whole.rows[j] == #[trigger] q.rows[j] by {
        if p(q.rows[j]) {
            let id = by_id(q.rows[j].queue_id);
            lemma_row_of_part(q, p, j);
            let at = first_where(part(q, p).rows, id)->0;
            lemma_first_where(part(q, p).rows, id);
            assert forall|m: int| 0 <= m < at implies !id(#[trigger] changed.rows[m]) by {
                assert(!id(part(q, p).rows[m]));
            }
            assert(changed.rows[at] == part(q, p).rows[at]);
            lemma_first_where_is(changed.rows, id, at);
        }
    }
    assert(changed.rows.skip(q.rows.filter(p).len() as int) =~= seq![row]);
    assert(whole.rows =~= q.rows.push(row));
}

/// An operation on a row needs that row alone: done on it by itself it gives the same result, and
/// keeping the change gives the same queue.
pub proof fn law_row_operations_need_their_row(q: QueueModel, op: QueueOp)
    requires
        schema_holds(q),
        op is Cancel || op is Acknowledge || op is SetBlocked || op is MarkSubmitted
            || op is MarkAmbiguous,
    ensures
        kept(q, needs(op), apply(part(q, needs(op)), op)) == apply(q, op),
        match op {
            QueueOp::Cancel { queue_id, now } => cancel_effect(
                part(q, needs(op)),
                queue_id,
                now,
            ).1 == cancel_effect(q, queue_id, now).1,
            QueueOp::Acknowledge { queue_id, now } => acknowledge_effect(
                part(q, needs(op)),
                queue_id,
                now,
            ).1 == acknowledge_effect(q, queue_id, now).1,
            QueueOp::SetBlocked { queue_id, reason, now } => set_blocked_effect(
                part(q, needs(op)),
                queue_id,
                reason,
                now,
            ).1 == set_blocked_effect(q, queue_id, reason, now).1,
            QueueOp::MarkSubmitted { queue_id, pty_epoch, now } => mark_submitted_effect(
                part(q, needs(op)),
                queue_id,
                pty_epoch,
                now,
            ).1 == mark_submitted_effect(q, queue_id, pty_epoch, now).1,
            QueueOp::MarkAmbiguous { queue_id, error, known_epoch, now } => mark_ambiguous_effect(
                part(q, needs(op)),
                queue_id,
                error,
                known_epoch,
                now,
            ).1 == mark_ambiguous_effect(q, queue_id, error, known_epoch, now).1,
            _ => true,
        },
{
    let p = needs(op);
    lemma_same_match(q.rows, p, p);
    lemma_kept_unchanged(q, p);
    match first_where(q.rows, p) {
        Some(i) => {
            let next = apply(q, op);
            lemma_first_where(q.rows, p);
            if next != q {
                lemma_kept_put(q, p, p, next.rows[i], next.rows[i].updated_at_ms);
            }
        },
        None => {},
    }
}

/// Enqueueing needs the rows of the instance alone, when no row has the new id.
pub proof fn law_enqueueing_needs_the_rows_of_its_instance(
    q: QueueModel,
    instance_id: Seq<char>,
    key: Seq<char>,
    text: Seq<char>,
    queue_id: Seq<char>,
    now: i64,
)
    requires
        schema_holds(q),
        forall|i: int| 0 <= i < q.rows.len() ==> (#[trigger] q.rows[i]).queue_id != queue_id,
    ensures
        ({
            let p = of_instance(instance_id);
            let (changed, r) = enqueue_effect(part(q, p), instance_id, key, text, queue_id, now);
            let (next, whole_r) = enqueue_effect(q, instance_id, key, text, queue_id, now);
            r == whole_r && kept(q, p, changed) == next
        }),
{
    let p = of_instance(instance_id);
    let r = by_key(instance_id, key);
    let (changed, _) = enqueue_effect(part(q, p), instance_id, key, text, queue_id, now);
    let (next, _) = enqueue_effect(q, instance_id, key, text, queue_id, now);
    let places = lemma_filter_places(q.rows, p);
    lemma_same_match(q.rows, p, r);
    lemma_kept_unchanged(q, p);
    lemma_first_where(q.rows, r);
    lemma_first_where_none(q.rows, by_id(queue_id));
    assert forall|j: int| 0 <= j < part(q, p).rows.len() implies !by_id(queue_id)(
        #[trigger] part(q, p).rows[j],
    ) by {
        assert(q.rows[places[j]].queue_id != queue_id);
    }
    lemma_first_where_none(part(q, p).rows, by_id(queue_id));
    if first_where(q.rows, r) is None {
        lemma_kept_push(q, p, changed, next.rows.last());
        assert(kept(q, p, changed).events =~= next.events);
    }
}

/// Taking up the next delivery needs the rows of the instance alone.
pub proof fn law_claiming_needs_the_rows_of_its_instance(
    q: QueueModel,
    instance_id: Seq<char>,
    now: i64,
)
    requires
        schema_holds(q),
    ensures
        ({
            let p = of_instance(instance_id);
            let (changed, r) = claim_effect(part(q, p), instance_id, now);
            let (next, whole_r) = claim_effect(q, instance_id, now);
            r == whole_r && kept(q, p, changed) == next
        }),
{
    let p = of_instance(instance_id);
    let r = claimable(instance_id);
    let places = lemma_filter_places(q.rows, p);
    lemma_same_match(q.rows, p, being_delivered(instance_id));
    lemma_same_match(q.rows, p, r);
    lemma_kept_unchanged(q, p);
    lemma_first_where(q.rows, r);
    lemma_first_where(part(q, p).rows, r);
    if first_where(q.rows, being_delivered(instance_id)) is None && first_where(q.rows, r) is Some {
        let i = first_where(q.rows, r)->0;
        let k = first_where(part(q, p).rows, r)->0;
        assert(places[k] == i) by {
            assert(q.rows[places[k]].queue_id == q.rows[i].queue_id);
        }
        assert(other_inflight(part(q, p).rows, k) == other_inflight(q.rows, i)) by {
            if other_inflight(q.rows, i) {
                let j = choose|j: int|
                    0 <= j < q.rows.len() && j != i && (#[trigger] q.rows[j]).instance_id
                        == q.rows[i].instance_id && is_inflight_state(
                        q.rows[j].state,
                    );
                assert(p(q.rows[j]));
                let m = places.index_of(j);
                assert(part(q, p).rows[m] == q.rows[j]);
            }
            if other_inflight(part(q, p).rows, k) {
                let rows = part(q, p).rows;
                let m = choose|m: int|
                    0 <= m < rows.len() && m != k && (#[trigger] rows[m]).instance_id
                        == rows[k].instance_id && is_inflight_state(
                        rows[m].state,
                    );
                assert(q.rows[places[m]] == rows[m]);
                assert(places[m] != places[k]) by {
                    if m < k {
                        assert(places[m] < places[k]);
                    } else {
                        assert(places[k] < places[m]);
                    }
                }
            }
        }
        let next = claim_effect(q, instance_id, now).0;
        if next != q {
            lemma_kept_put(q, p, r, next.rows[i], now);
        }
    }
}

/// Orphaning needs one row at a time: done on a row by itself it orphans that row where its instance
/// is not known, and leaves the rest of the queue alone.
pub proof fn law_orphaning_goes_row_by_row(
    q: QueueModel,
    i: int,
    known: Set<Seq<char>>,
    times: Seq<i64>,
)
    requires
        schema_holds(q),
        0 <= i < q.rows.len(),
        times.len() == 1,
    ensures
        ({
            let p = by_id(q.rows[i].queue_id);
            let row = q.rows[i];
            &&& part(q, p).rows == seq![row]
            &&& kept(q, p, orphan_effect(part(q, p), known, times)) == if is_orphan(row, known) {
                put_row(q, i, orphaned_row(row, times[0]), times[0])
            } else {
                q
            }
        }),
{
    let row = q.rows[i];
    let p = by_id(row.queue_id);
    let alone = part(q, p);
    let changed = orphan_effect(alone, known, times);
    let places = lemma_filter_places(q.rows, p);
    assert(places.contains(i));
    assert forall|k: int| 0 <= k < places.len() implies #[trigger] places[k] == i by {
        assert(q.rows[places[k]].queue_id == row.queue_id);
    }
    if places.len() > 1 {
        assert(places[0] < places[1]);
    }
    assert(alone.rows =~= seq![row]);
    lemma_first_where_is(q.rows, p, i);
    lemma_first_where_is(alone.rows, p, 0);
    lemma_kept_unchanged(q, p);
    reveal_with_fuel(gather, 2);
    law_list_shows_every_row(alone);
    if is_orphan(row, known) {
        let orphan = orphaned_row(row, times[0]);
        lemma_kept_put(q, p, p, orphan, times[0]);
        assert(changed.rows =~= put_row(alone, 0, orphan, times[0]).rows);
        assert(changed.events =~= put_row(alone, 0, orphan, times[0]).events);
    } else {
        assert(changed.rows =~= alone.rows);
        assert(changed.events =~= alone.events);
    }
}

} // verus!
