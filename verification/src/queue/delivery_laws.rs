//! What holds of delivering, canceling, acknowledging, recovering and orphaning.
use crate::api::schema::ReceiptModel;
use crate::queue::error::QueueErrorModel;
use crate::queue::laws::{
    QueueOp, law_every_history_is_sound, law_list_shows_every_row, law_order_is_kept,
    law_rows_are_kept, law_schema_is_kept, law_soundness_is_kept, run, same_identity,
};
use crate::queue::model::{
    ClaimResult, QueueModel, RowModel, acknowledge_effect, being_delivered, by_id, cancel_effect,
    claim_effect, claimable, claimed_row, empty_queue, enqueue_effect, event_of, first_where,
    gather, get_effect, inflight_leads, interrupted_row, is_inflight_state, is_orphan,
    is_settled_state, is_waiting_state, lemma_first_where, lemma_first_where_is,
    lemma_first_where_none, list_effect, mark_ambiguous_effect, mark_submitted_effect,
    orphan_effect, orphaned_receipts, orphaned_row, other_inflight, put_row, receipt_of,
    recover_effect, schema_holds, set_blocked_effect, sound,
};
use crate::queue::row::{QueueEvent, StoredRow};
use crate::queue::store::loaded;
use vstd::prelude::*;

verus! {

/// Rows of an instance that are in a state and not settled.
pub open spec fn unsettled(instance_id: Seq<char>) -> spec_fn(RowModel) -> bool {
    |row: RowModel| row.instance_id == instance_id && !is_settled_state(row.state) && !(row.state is Other)
}

/// The result of a claim that finds nothing to hand out.
pub open spec fn nothing_claimed() -> ClaimResult {
    Ok(None)
}

/// First in, first out: what is claimed for an instance is its earliest unsettled row, unless
/// that row is being delivered; then nothing is claimed. No claim runs into a second row in
/// flight.
pub proof fn law_claims_are_first_in_first_out(q: QueueModel, instance_id: Seq<char>, now: i64)
    requires
        schema_holds(q),
        inflight_leads(q),
    ensures
        match first_where(q.rows, unsettled(instance_id)) {
            None => claim_effect(q, instance_id, now) == (q, nothing_claimed()),
            Some(i) => if q.rows[i].state is Attempting || q.rows[i].state is Submitted {
                claim_effect(q, instance_id, now) == (q, nothing_claimed())
            } else {
                q.rows[i].attempts < i64::MAX ==> claim_effect(q, instance_id, now) == (
                    put_row(q, i, claimed_row(q.rows[i], now), now),
                    Ok::<_, QueueErrorModel>(
                        Some((receipt_of(claimed_row(q.rows[i], now)), q.rows[i].text)),
                    ),
                )
            },
        },
{
    let live = unsettled(instance_id);
    let busy = being_delivered(instance_id);
    let next = claimable(instance_id);
    lemma_first_where(q.rows, live);
    match first_where(q.rows, live) {
        None => {
            assert forall|j: int| 0 <= j < q.rows.len() implies !busy(#[trigger] q.rows[j])
                && !next(q.rows[j]) by {
                assert(!live(q.rows[j]));
            }
            lemma_first_where_none(q.rows, busy);
            lemma_first_where_none(q.rows, next);
        },
        Some(i) => {
            if q.rows[i].state is Attempting || q.rows[i].state is Submitted {
                assert forall|j: int| 0 <= j < i implies !busy(#[trigger] q.rows[j]) by {
                    assert(!live(q.rows[j]));
                }
                lemma_first_where_is(q.rows, busy, i);
            } else {
                assert forall|j: int| 0 <= j < q.rows.len() && j != i && (
                #[trigger] q.rows[j]).instance_id == instance_id implies !is_inflight_state(
                    q.rows[j].state,
                ) by {
                    if j < i {
                        assert(!live(q.rows[j]));
                    }
                }
                assert forall|j: int| 0 <= j < q.rows.len() implies !busy(#[trigger] q.rows[j]) by {}
                lemma_first_where_none(q.rows, busy);
                assert forall|j: int| 0 <= j < i implies !next(#[trigger] q.rows[j]) by {
                    assert(!live(q.rows[j]));
                }
                lemma_first_where_is(q.rows, next, i);
                assert(!other_inflight(q.rows, i));
            }
        },
    }
}

/// One delivery at a time: after a claim, nothing more is claimed for the instance until the
/// delivery has ended.
pub proof fn law_one_delivery_at_a_time(
    q: QueueModel,
    instance_id: Seq<char>,
    now: i64,
    later: i64,
)
    ensures
        ({
            let (next, r) = claim_effect(q, instance_id, now);
            r is Ok && r->Ok_0 is Some ==> claim_effect(next, instance_id, later) == (
                next,
                nothing_claimed(),
            )
        }),
{
    let (next, r) = claim_effect(q, instance_id, now);
    let p = claimable(instance_id);
    lemma_first_where(q.rows, p);
    if r is Ok && r->Ok_0 is Some {
        let i = first_where(q.rows, p)->0;
        assert(being_delivered(instance_id)(next.rows[i]));
        lemma_first_where(next.rows, being_delivered(instance_id));
    }
}

/// Submitting does not free the instance; acknowledging does: a submitted row blocks further
/// claims, and once it is acknowledged the next waiting row is claimed.
pub proof fn law_acknowledging_frees_the_instance(
    q: QueueModel,
    i: int,
    pty_epoch: Seq<char>,
    now: i64,
    later: i64,
)
    requires
        schema_holds(q),
        inflight_leads(q),
        0 <= i < q.rows.len(),
        q.rows[i].state is Attempting,
    ensures
        ({
            let row = q.rows[i];
            let (submitted, r) = mark_submitted_effect(q, row.queue_id, pty_epoch, now);
            let (acked, a) = acknowledge_effect(submitted, row.queue_id, later);
            &&& r is Ok && r->Ok_0.state is Submitted
            &&& claim_effect(submitted, row.instance_id, later) == (
                submitted,
                nothing_claimed(),
            )
            &&& a is Ok && a->Ok_0.state is Acknowledged
            &&& match first_where(acked.rows, unsettled(row.instance_id)) {
                None => claim_effect(acked, row.instance_id, later) == (acked, nothing_claimed()),
                Some(k) => k != i && (acked.rows[k].attempts < i64::MAX ==> claim_effect(
                    acked,
                    row.instance_id,
                    later,
                ).1 == Ok::<_, QueueErrorModel>(
                    Some((receipt_of(claimed_row(acked.rows[k], later)), acked.rows[k].text)),
                )),
            }
        }),
{
    let row = q.rows[i];
    lemma_unique_id(q, i);
    let (submitted, r) = mark_submitted_effect(q, row.queue_id, pty_epoch, now);
    law_schema_is_kept(
        q,
        QueueOp::MarkSubmitted { queue_id: row.queue_id, pty_epoch, now },
    );
    assert(submitted.rows[i].queue_id == row.queue_id);
    lemma_unique_id(submitted, i);
    assert(being_delivered(row.instance_id)(submitted.rows[i]));
    lemma_first_where(submitted.rows, being_delivered(row.instance_id));
    let (acked, a) = acknowledge_effect(submitted, row.queue_id, later);
    lemma_first_where(acked.rows, unsettled(row.instance_id));
    assert forall|j: int| 0 <= j < acked.rows.len() implies !being_delivered(row.instance_id)(
        #[trigger] acked.rows[j],
    ) by {
        assert(j != i ==> acked.rows[j] == q.rows[j]);
    }
    lemma_first_where_none(acked.rows, being_delivered(row.instance_id));
    let submit = QueueOp::MarkSubmitted { queue_id: row.queue_id, pty_epoch, now };
    let ack = QueueOp::Acknowledge { queue_id: row.queue_id, now: later };
    law_soundness_is_kept(q, submit);
    law_soundness_is_kept(submitted, ack);
    law_claims_are_first_in_first_out(acked, row.instance_id, later);
}

/// Where ids are unique, a row is found under its own id.
proof fn lemma_unique_id(q: QueueModel, i: int)
    requires
        schema_holds(q),
        0 <= i < q.rows.len(),
    ensures
        first_where(q.rows, by_id(q.rows[i].queue_id)) == Some(i),
{
    lemma_first_where_is(q.rows, by_id(q.rows[i].queue_id), i);
}

/// Instances do not interfere: what is claimed for one does not depend on a claim for another,
/// and leaves the rows of every other instance as they are.
pub proof fn law_instances_do_not_interfere(
    q: QueueModel,
    a: Seq<char>,
    b: Seq<char>,
    now: i64,
    later: i64,
)
    requires
        a != b,
    ensures
        claim_effect(claim_effect(q, a, now).0, b, later).1 == claim_effect(q, b, later).1,
        forall|j: int|
            0 <= j < q.rows.len() && (#[trigger] q.rows[j]).instance_id != a ==> claim_effect(
                q,
                a,
                now,
            ).0.rows[j] == q.rows[j],
{
    let next = claim_effect(q, a, now).0;
    lemma_first_where(q.rows, claimable(a));
    if next != q {
        let i = first_where(q.rows, claimable(a))->0;
        assert(q.rows[i].instance_id == a);
        assert forall|j: int| 0 <= j < q.rows.len() implies being_delivered(b)(
            #[trigger] next.rows[j],
        ) == being_delivered(b)(q.rows[j]) && claimable(b)(next.rows[j]) == claimable(b)(
            q.rows[j],
        ) by {}
        lemma_first_where_same(q.rows, next.rows, being_delivered(b));
        lemma_first_where_same(q.rows, next.rows, claimable(b));
        lemma_first_where(q.rows, claimable(b));
        if first_where(q.rows, claimable(b)) is Some {
            let k = first_where(q.rows, claimable(b))->0;
            assert(next.rows[k] == q.rows[k]);
            assert(other_inflight(q.rows, k) == other_inflight(next.rows, k)) by {
                if other_inflight(q.rows, k) {
                    let j = choose|j: int|
                        0 <= j < q.rows.len() && j != k && (#[trigger] q.rows[j]).instance_id
                            == q.rows[k].instance_id && is_inflight_state(q.rows[j].state);
                    assert(next.rows[j] == q.rows[j]);
                }
                if other_inflight(next.rows, k) {
                    let j = choose|j: int|
                        0 <= j < next.rows.len() && j != k && (
                        #[trigger] next.rows[j]).instance_id == next.rows[k].instance_id
                            && is_inflight_state(next.rows[j].state);
                    assert(next.rows[j] == q.rows[j]);
                }
            }
        }
    }
}

proof fn lemma_first_where_same(a: Seq<RowModel>, b: Seq<RowModel>, p: spec_fn(RowModel) -> bool)
    requires
        a.len() == b.len(),
        forall|j: int| 0 <= j < a.len() ==> p(#[trigger] b[j]) == p(a[j]),
    ensures
        first_where(a, p) == first_where(b, p),
{
    lemma_first_where(a, p);
    match first_where(a, p) {
        Some(i) => {
            assert forall|j: int| 0 <= j < i implies !p(#[trigger] b[j]) by {
                assert(!p(a[j]));
            }
            assert(p(b[i]));
            lemma_first_where_is(b, p, i);
        },
        None => {
            assert forall|j: int| 0 <= j < b.len() implies !p(#[trigger] b[j]) by {
                assert(!p(a[j]));
            }
            lemma_first_where_none(b, p);
        },
    }
}

/// Canceling is promised before submission and only then: it succeeds exactly for a row that is
/// waiting or already canceled.
pub proof fn law_cancel_only_before_submission(q: QueueModel, i: int, now: i64)
    requires
        schema_holds(q),
        0 <= i < q.rows.len(),
    ensures
        cancel_effect(q, q.rows[i].queue_id, now).1 is Ok <==> (is_waiting_state(q.rows[i].state)
            || q.rows[i].state is Canceled),
        is_inflight_state(q.rows[i].state) ==> cancel_effect(q, q.rows[i].queue_id, now) == (
            q,
            Err::<ReceiptModel, _>(QueueErrorModel::AlreadySubmitted(receipt_of(q.rows[i]))),
        ),
{
    lemma_unique_id(q, i);
}

/// A canceled row stays canceled whatever is done, so its text is never handed out again.
pub proof fn law_canceled_stays_canceled(
    q: QueueModel,
    i: int,
    now: i64,
    ops: Seq<QueueOp>,
    instance_id: Seq<char>,
    later: i64,
)
    requires
        schema_holds(q),
        0 <= i < q.rows.len(),
        cancel_effect(q, q.rows[i].queue_id, now).1 is Ok,
    ensures
        ({
            let end = run(cancel_effect(q, q.rows[i].queue_id, now).0, ops);
            &&& end.rows[i].state is Canceled
            &&& claim_effect(end, instance_id, later).0.rows[i] == end.rows[i]
        }),
{
    lemma_unique_id(q, i);
    let canceled = cancel_effect(q, q.rows[i].queue_id, now).0;
    law_rows_are_kept(canceled, ops, i);
    let end = run(canceled, ops);
    lemma_first_where(end.rows, claimable(instance_id));
}

/// Saying it twice changes nothing the second time: canceling, acknowledging and blocking a row
/// again give the same receipt and leave the queue as it is.
pub proof fn law_settling_twice(
    q: QueueModel,
    queue_id: Seq<char>,
    reason: Seq<char>,
    now: i64,
    later: i64,
)
    ensures
        ({
            let (next, r) = cancel_effect(q, queue_id, now);
            r is Ok ==> cancel_effect(next, queue_id, later) == (next, r)
        }),
        ({
            let (next, r) = acknowledge_effect(q, queue_id, now);
            r is Ok ==> acknowledge_effect(next, queue_id, later) == (next, r)
        }),
        ({
            let (next, r) = set_blocked_effect(q, queue_id, reason, now);
            r is Ok ==> set_blocked_effect(next, queue_id, reason, later) == (next, r)
        }),
{
    let p = by_id(queue_id);
    lemma_first_where(q.rows, p);
    let a = cancel_effect(q, queue_id, now).0;
    let b = acknowledge_effect(q, queue_id, now).0;
    let c = set_blocked_effect(q, queue_id, reason, now).0;
    assert(forall|j: int| 0 <= j < q.rows.len() ==> p(#[trigger] a.rows[j]) == p(q.rows[j]));
    assert(forall|j: int| 0 <= j < q.rows.len() ==> p(#[trigger] b.rows[j]) == p(q.rows[j]));
    assert(forall|j: int| 0 <= j < q.rows.len() ==> p(#[trigger] c.rows[j]) == p(q.rows[j]));
    lemma_first_where_same(q.rows, a.rows, p);
    lemma_first_where_same(q.rows, b.rows, p);
    lemma_first_where_same(q.rows, c.rows, p);
}

/// A refused operation leaves the queue and its log as they were.
pub proof fn law_refusals_change_nothing(
    q: QueueModel,
    queue_id: Seq<char>,
    instance_id: Seq<char>,
    key: Seq<char>,
    text: Seq<char>,
    epoch: Option<Seq<char>>,
    now: i64,
)
    ensures
        enqueue_effect(q, instance_id, key, text, queue_id, now).1 is Err ==> enqueue_effect(
            q,
            instance_id,
            key,
            text,
            queue_id,
            now,
        ).0 == q,
        cancel_effect(q, queue_id, now).1 is Err ==> cancel_effect(q, queue_id, now).0 == q,
        acknowledge_effect(q, queue_id, now).1 is Err ==> acknowledge_effect(q, queue_id, now).0
            == q,
        set_blocked_effect(q, queue_id, text, now).1 is Err ==> set_blocked_effect(
            q,
            queue_id,
            text,
            now,
        ).0 == q,
        claim_effect(q, instance_id, now).1 is Err ==> claim_effect(q, instance_id, now).0 == q,
        mark_submitted_effect(q, queue_id, text, now).1 is Err ==> mark_submitted_effect(
            q,
            queue_id,
            text,
            now,
        ).0 == q,
        mark_ambiguous_effect(q, queue_id, text, epoch, now).1 is Err ==> mark_ambiguous_effect(
            q,
            queue_id,
            text,
            epoch,
            now,
        ).0 == q,
{
}

/// After a restart nothing counts as being attempted, attempts are not lost, settled and waiting
/// rows are as they were, and a second restart changes nothing.
pub proof fn law_recovery(q: QueueModel, now: i64, later: i64)
    ensures
        forall|i: int|
            0 <= i < q.rows.len() ==> {
                let after = #[trigger] recover_effect(q, now).rows[i];
                &&& !(after.state is Attempting)
                &&& after.attempts == q.rows[i].attempts
                &&& same_identity(q.rows[i], after)
                &&& !(q.rows[i].state is Attempting) ==> after == q.rows[i]
                &&& q.rows[i].state is Attempting ==> after.state is Ambiguous && after.last_error
                    == Some("server_restarted_during_submission"@)
            },
        recover_effect(recover_effect(q, now), later) == recover_effect(q, now),
{
    let once = recover_effect(q, now);
    let twice = recover_effect(once, later);
    assert(twice.rows =~= once.rows);
    lemma_gather_empty(
        once.rows.len(),
        |i: int| once.rows[i].state is Attempting,
        |i: int| event_of(interrupted_row(once.rows[i], later), later),
    );
    assert(twice.events =~= once.events);
}

proof fn lemma_gather_empty<A>(n: nat, p: spec_fn(int) -> bool, f: spec_fn(int) -> A)
    requires
        forall|i: int| 0 <= i < n ==> !#[trigger] p(i),
    ensures
        gather(n, p, f) == Seq::<A>::empty(),
    decreases n,
{
    if n > 0 {
        lemma_gather_empty((n - 1) as nat, p, f);
        assert(!p(n - 1));
    }
}

/// A delivery that a restart cut off is the next one that its instance is given.
pub proof fn law_interrupted_delivery_comes_first(q: QueueModel, i: int, now: i64, later: i64)
    requires
        schema_holds(q),
        inflight_leads(q),
        0 <= i < q.rows.len(),
        q.rows[i].state is Attempting,
        q.rows[i].attempts < i64::MAX,
    ensures
        ({
            let (next, r) = claim_effect(recover_effect(q, now), q.rows[i].instance_id, later);
            &&& r matches Ok(Some(handed)) && handed.0.queue_id == q.rows[i].queue_id && handed.1
                == q.rows[i].text
            &&& next.rows[i].attempts == q.rows[i].attempts + 1
        }),
{
    let after = recover_effect(q, now);
    let instance_id = q.rows[i].instance_id;
    law_schema_is_kept(q, QueueOp::Recover { now });
    law_order_is_kept(q, QueueOp::Recover { now });
    law_claims_are_first_in_first_out(after, instance_id, later);
    let live = unsettled(instance_id);
    assert forall|j: int| 0 <= j < i implies !live(#[trigger] after.rows[j]) by {
        assert(after.rows[j].instance_id == instance_id ==> q.rows[j].instance_id
            == q.rows[i].instance_id);
    }
    lemma_first_where_is(after.rows, live, i);
}

/// Orphaning settles every row whose instance is gone, leaves settled rows and the rows of known
/// instances alone, and has nothing to do the second time. Where a row cannot be read, it does
/// nothing.
pub proof fn law_orphaning(
    q: QueueModel,
    known: Set<Seq<char>>,
    times: Seq<i64>,
    later: Seq<i64>,
)
    ensures
        forall|i: int|
            list_effect(q, None, None) is Ok && 0 <= i < q.rows.len() ==> {
                let after = #[trigger] orphan_effect(q, known, times).rows[i];
                &&& !is_orphan(after, known)
                &&& is_settled_state(q.rows[i].state) || known.contains(q.rows[i].instance_id)
                    ==> after == q.rows[i]
                &&& is_orphan(q.rows[i], known) ==> after.state is Orphaned && same_identity(
                    q.rows[i],
                    after,
                )
            },
        orphan_effect(orphan_effect(q, known, times), known, later) == orphan_effect(
            q,
            known,
            times,
        ),
        list_effect(q, None, None) is Ok ==> orphaned_receipts(
            orphan_effect(q, known, times),
            known,
            later,
        ) == Ok::<_, QueueErrorModel>(Seq::<ReceiptModel>::empty()),
        list_effect(q, None, None) is Err ==> orphan_effect(q, known, times) == q
            && orphaned_receipts(q, known, times) is Err,
{
    law_list_shows_every_row(q);
    law_list_shows_every_row(orphan_effect(q, known, times));
    let once = orphan_effect(q, known, times);
    let twice = orphan_effect(once, known, later);
    if list_effect(q, None, None) is Ok {
        assert(twice.rows =~= once.rows);
        let p = |i: int| is_orphan(once.rows[i], known);
        lemma_gather_empty(
            once.rows.len(),
            p,
            |i: int| event_of(orphaned_row(once.rows[i], later[i]), later[i]),
        );
        lemma_gather_empty(
            once.rows.len(),
            p,
            |i: int| receipt_of(orphaned_row(once.rows[i], later[i])),
        );
        assert(twice.events =~= once.events);
    }
}

/// A queue that is stored and opened again has its rows and its whole log, with the interrupted
/// deliveries ambiguous and logged as such, and a sound queue is sound again.
pub proof fn law_reopening_keeps_the_queue(
    q: QueueModel,
    stored: Seq<StoredRow>,
    log: Seq<QueueEvent>,
    now: i64,
)
    requires
        stored.map_values(|row: StoredRow| row@) == q.rows,
        log.map_values(|event: QueueEvent| event@) == q.events,
    ensures
        loaded(stored, log) == q,
        q.events.is_prefix_of(recover_effect(loaded(stored, log), now).events),
        recover_effect(loaded(stored, log), now).rows.len() == q.rows.len(),
        sound(q) ==> sound(recover_effect(loaded(stored, log), now)),
{
    if sound(q) {
        law_soundness_is_kept(q, QueueOp::Recover { now });
    }
}

/// Every history from an empty queue is sound, whatever restarts there are in between: a restart
/// is the recovery of what was stored.
pub proof fn law_histories_go_on_after_a_restart(
    before: Seq<QueueOp>,
    stored: Seq<StoredRow>,
    log: Seq<QueueEvent>,
    now: i64,
    after: Seq<QueueOp>,
)
    requires
        loaded(stored, log) == run(empty_queue(), before),
    ensures
        sound(run(recover_effect(loaded(stored, log), now), after)),
    decreases after.len(),
{
    if after.len() == 0 {
        law_every_history_is_sound(before);
        law_soundness_is_kept(loaded(stored, log), QueueOp::Recover { now });
    } else {
        law_histories_go_on_after_a_restart(before, stored, log, now, after.drop_last());
        law_soundness_is_kept(
            run(recover_effect(loaded(stored, log), now), after.drop_last()),
            after.last(),
        );
    }
}

/// A row whose state is not one is an error where it is read, and in the way of nothing else: no
/// claim takes it, and another row is read as if it were not there.
pub proof fn law_unreadable_rows_stand_apart(
    q: QueueModel,
    i: int,
    j: int,
    instance_id: Seq<char>,
    now: i64,
)
    requires
        schema_holds(q),
        0 <= i < q.rows.len(),
        q.rows[i].state is Other,
        0 <= j < q.rows.len(),
        !(q.rows[j].state is Other),
    ensures
        get_effect(q, q.rows[i].queue_id) is Err,
        get_effect(q, q.rows[j].queue_id) == Ok::<_, QueueErrorModel>(receipt_of(q.rows[j])),
        cancel_effect(q, q.rows[i].queue_id, now).1 == get_effect(q, q.rows[i].queue_id),
        acknowledge_effect(q, q.rows[i].queue_id, now).1 == get_effect(q, q.rows[i].queue_id),
        claim_effect(q, instance_id, now).0.rows[i] == q.rows[i],
        list_effect(q, None, None) is Err,
{
    lemma_unique_id(q, i);
    lemma_unique_id(q, j);
    lemma_first_where(q.rows, claimable(instance_id));
    law_list_shows_every_row(q);
}

} // verus!
