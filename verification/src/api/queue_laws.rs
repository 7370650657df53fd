//! What holds of the queue requests.
use crate::api::app::{
    App, acknowledge_carried_out, answers_trouble, cancel_carried_out, enqueue_carried_out,
    enqueue_refusal,
};
use crate::api::response::{AgentEnqueueParams, ApiResponse, emits, is_error, shows_receipt};
use crate::api::schema::{AgentQueueState, ReceiptModel};
use crate::ident::uuid_text;
use crate::queue::error::{QueueErrorModel, StoreErrorModel};
use crate::queue::laws::{
    QueueOp, law_enqueued_row_is_found, law_enqueueing_is_idempotent, law_rows_are_kept,
    law_soundness_is_kept, run,
};
use crate::queue::model::{
    QueueModel, acknowledge_effect, by_id, by_key, cancel_effect, enqueue_effect, first_where,
    get_effect, lemma_first_where, lemma_first_where_is, put_row, receipt_of, schema_holds,
    settled_row, sound,
};
use vstd::prelude::*;

verus! {

/// A request that can change the queue, with the time and the id that it is given.
pub enum QueueRequest {
    Enqueue { params: AgentEnqueueParams, queue_id: Seq<char>, now: i64 },
    Cancel { queue_id: Seq<char>, now: i64 },
    Acknowledge { queue_id: Seq<char>, now: i64 },
}

/// The server handled the request `id` and answered `r`.
pub open spec fn handled(
    before: App,
    after: App,
    r: ApiResponse,
    id: Seq<char>,
    request: QueueRequest,
) -> bool {
    match request {
        QueueRequest::Enqueue { params, queue_id, now } => match enqueue_refusal(
            before.state,
            params,
        ) {
            Some(refusal) => after == before && is_error(r, id, refusal.0, refusal.1),
            None => enqueue_carried_out(before, after, r, id, params, queue_id, now),
        },
        QueueRequest::Cancel { queue_id, now } => cancel_carried_out(
            before,
            after,
            r,
            id,
            queue_id,
            now,
        ),
        QueueRequest::Acknowledge { queue_id, now } => acknowledge_carried_out(
            before,
            after,
            r,
            id,
            queue_id,
            now,
        ),
    }
}

/// An answer carries the id of its request, and one that is an error means that nothing has
/// changed.
pub proof fn law_refused_requests_change_nothing(
    before: App,
    after: App,
    r: ApiResponse,
    id: Seq<char>,
    request: QueueRequest,
)
    requires
        handled(before, after, r, id, request),
    ensures
        r.id@ == id,
        r.outcome is Error ==> {
            &&& after.state == before.state
            &&& after.agent_queue@ == before.agent_queue@
            &&& after.events@ == before.events@
        },
{
}

/// While there is no store every request that gets to it is answered with the reason.
pub proof fn law_without_a_store_requests_fail(
    before: App,
    after: App,
    r: ApiResponse,
    id: Seq<char>,
    request: QueueRequest,
)
    requires
        handled(before, after, r, id, request),
        before.agent_queue@ is Err,
        request matches QueueRequest::Enqueue { params, .. } ==> enqueue_refusal(
            before.state,
            params,
        ) is None,
    ensures
        after == before,
        answers_trouble(r, id, before.agent_queue@->Err_0),
{
}

/// A settled row is still found under its id.
proof fn lemma_settled_row_is_found(
    q: QueueModel,
    queue_id: Seq<char>,
    target: AgentQueueState,
    now: i64,
)
    requires
        first_where(q.rows, by_id(queue_id)) is Some,
    ensures
        ({
            let i = first_where(q.rows, by_id(queue_id))->0;
            let row = settled_row(q.rows[i], target, now);
            &&& get_effect(put_row(q, i, row, now), queue_id) == Ok::<_, QueueErrorModel>(
                receipt_of(row),
            )
            &&& receipt_of(row).queue_id == queue_id
            &&& put_row(q, i, row, now) != q
        }),
{
    lemma_first_where(q.rows, by_id(queue_id));
    let i = first_where(q.rows, by_id(queue_id))->0;
    let next = put_row(q, i, settled_row(q.rows[i], target, now), now);
    lemma_first_where_is(next.rows, by_id(queue_id), i);
    assert(next.events.len() == q.events.len() + 1);
}

/// Subscribers hear of every change of the queue, once, and of nothing else: the event holds the
/// receipt that the request was answered with and that the row now has.
pub proof fn law_subscribers_hear_of_every_change(
    before: App,
    after: App,
    r: ApiResponse,
    id: Seq<char>,
    request: QueueRequest,
)
    requires
        handled(before, after, r, id, request),
        before.agent_queue@ is Ok,
    ensures
        after.agent_queue@ is Ok,
        after.agent_queue@ == before.agent_queue@ ==> after.events@ == before.events@,
        after.agent_queue@ != before.agent_queue@ ==> exists|receipt: ReceiptModel|
            {
                &&& #[trigger] emits(before.events@, after.events@, Some(receipt))
                &&& shows_receipt(r, id, receipt)
                &&& get_effect(after.agent_queue@->Ok_0, receipt.queue_id) == Ok::<
                    _,
                    QueueErrorModel,
                >(receipt)
            },
{
    let q = before.agent_queue@->Ok_0;
    match request {
        QueueRequest::Enqueue { params, queue_id, now } => {
            if enqueue_refusal(before.state, params) is None {
                let instance_id = uuid_text(params.instance_id@)->0;
                let key = params.idempotency_key@;
                let (next, result) = enqueue_effect(
                    q,
                    instance_id,
                    key,
                    params.text@,
                    queue_id,
                    now,
                );
                law_enqueued_row_is_found(q, instance_id, key, params.text@, queue_id, now);
                if result is Ok && !result->Ok_0.duplicate {
                    assert(next.rows.len() == q.rows.len() + 1);
                    assert(emits(before.events@, after.events@, Some(result->Ok_0.receipt)));
                }
            }
        },
        QueueRequest::Cancel { queue_id, now } => {
            if cancel_effect(q, queue_id, now).0 != q {
                lemma_settled_row_is_found(q, queue_id, AgentQueueState::Canceled, now);
                let receipt = cancel_effect(q, queue_id, now).1->Ok_0;
                assert(emits(before.events@, after.events@, Some(receipt)));
            } else if first_where(q.rows, by_id(queue_id)) is Some {
                lemma_settled_row_is_found(q, queue_id, AgentQueueState::Canceled, now);
            }
        },
        QueueRequest::Acknowledge { queue_id, now } => {
            if acknowledge_effect(q, queue_id, now).0 != q {
                lemma_settled_row_is_found(q, queue_id, AgentQueueState::Acknowledged, now);
                let receipt = acknowledge_effect(q, queue_id, now).1->Ok_0;
                assert(emits(before.events@, after.events@, Some(receipt)));
            } else if first_where(q.rows, by_id(queue_id)) is Some {
                lemma_settled_row_is_found(q, queue_id, AgentQueueState::Acknowledged, now);
            }
        },
    }
}

/// Requests keep the promises of the schema and the order of delivery.
pub proof fn law_requests_keep_the_queue_sound(
    before: App,
    after: App,
    r: ApiResponse,
    id: Seq<char>,
    request: QueueRequest,
)
    requires
        handled(before, after, r, id, request),
        before.agent_queue@ is Ok,
        sound(before.agent_queue@->Ok_0),
    ensures
        after.agent_queue@ is Ok,
        sound(after.agent_queue@->Ok_0),
{
    let q = before.agent_queue@->Ok_0;
    let op = match request {
        QueueRequest::Enqueue { params, queue_id, now } => QueueOp::Enqueue {
            instance_id: uuid_text(params.instance_id@)->0,
            key: params.idempotency_key@,
            text: params.text@,
            queue_id,
            now,
        },
        QueueRequest::Cancel { queue_id, now } => QueueOp::Cancel { queue_id, now },
        QueueRequest::Acknowledge { queue_id, now } => QueueOp::Acknowledge { queue_id, now },
    };
    law_soundness_is_kept(q, op);
}

/// A request to enqueue that succeeded may be repeated, whatever has happened to the queue since
/// and however the instance's UUID is spelled: the same text is answered with the same row, another
/// text is refused, and nothing changes.
pub proof fn law_enqueue_requests_may_be_repeated(
    before: App,
    after: App,
    r: ApiResponse,
    id: Seq<char>,
    params: AgentEnqueueParams,
    queue_id: Seq<char>,
    now: i64,
    receipt: ReceiptModel,
    ops: Seq<QueueOp>,
    later: App,
    last: App,
    again: AgentEnqueueParams,
    again_r: ApiResponse,
    again_id: Seq<char>,
    again_queue_id: Seq<char>,
    again_now: i64,
)
    requires
        handled(before, after, r, id, QueueRequest::Enqueue { params, queue_id, now }),
        shows_receipt(r, id, receipt),
        after.agent_queue@ is Ok,
        schema_holds(after.agent_queue@->Ok_0),
        later.agent_queue@ == Ok::<_, StoreErrorModel>(run(after.agent_queue@->Ok_0, ops)),
        handled(
            later,
            last,
            again_r,
            again_id,
            QueueRequest::Enqueue { params: again, queue_id: again_queue_id, now: again_now },
        ),
        enqueue_refusal(later.state, again) is None,
        uuid_text(again.instance_id@) == uuid_text(params.instance_id@),
        again.idempotency_key@ == params.idempotency_key@,
    ensures
        last.agent_queue@ == later.agent_queue@,
        last.events@ == later.events@,
        again.text@ == params.text@ ==> exists|same: ReceiptModel| #[trigger]
            shows_receipt(again_r, again_id, same) && same.queue_id == receipt.queue_id,
        again.text@ != params.text@ ==> again_r.outcome is Error
            && again_r.outcome->Error_0.code@ == "idempotency_conflict"@,
{
    let q = before.agent_queue@->Ok_0;
    let next = after.agent_queue@->Ok_0;
    let instance_id = uuid_text(params.instance_id@)->0;
    let key = params.idempotency_key@;
    let result = enqueue_effect(q, instance_id, key, params.text@, queue_id, now).1;
    lemma_first_where(q.rows, by_key(instance_id, key));
    let i = if result->Ok_0.duplicate {
        first_where(q.rows, by_key(instance_id, key))->0
    } else {
        q.rows.len() as int
    };
    assert(next.rows[i].instance_id == instance_id && next.rows[i].idempotency_key == key);
    assert(next.rows[i].queue_id == receipt.queue_id && next.rows[i].text == params.text@);
    law_enqueueing_is_idempotent(next, i, ops, again.text@, again_queue_id, again_now);
    law_rows_are_kept(next, ops, i);
    if again.text@ == params.text@ {
        assert(shows_receipt(again_r, again_id, receipt_of(run(next, ops).rows[i])));
    }
}

} // verus!
