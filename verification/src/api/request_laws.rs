//! When a queue request is refused, what it is answered, and what subscribers are told, in terms of
//! the request and of what is in the terminals and the rows.
use crate::api::app::{
    App, acknowledge_carried_out, answers, answers_list, answers_trouble, cancel_carried_out,
    enqueue_carried_out, enqueue_refusal,
};
use crate::api::response::{AgentEnqueueParams, ApiResponse, EventEnvelope, EventKind};
use crate::api::schema::{ReceiptModel, state_name};
use crate::api::state::{
    AppState, PaneSlot, attached_terminal, by_pane, by_terminal, runs, terminal_with_id,
};
use crate::ident::uuid_text;
use crate::queue::error::{QueueErrorModel, StoreErrorKind, StoreErrorModel};
use crate::queue::model::{
    QueueModel, acknowledge_effect, cancel_effect, enqueue_effect, first_where, get_effect,
    lemma_first_where,
};
use crate::queue::row_laws::{
    has_its_id_alone, law_acknowledging_a_row, law_canceling_a_row, law_get_tells_the_row, tells,
};
use crate::queue::runtime::QueueRuntime;
use crate::text::{has_control_char, law_control_characters};
use vstd::prelude::*;
use vstd::utf8::encode_utf8;

verus! {

/// `r` is the error answer to the request `id`.
pub open spec fn is_refused(
    r: ApiResponse,
    id: Seq<char>,
    code: Seq<char>,
    message: Seq<char>,
) -> bool {
    &&& r.id@ == id
    &&& r.outcome is Error
    &&& r.outcome->Error_0.code@ == code
    &&& r.outcome->Error_0.message@ == message
}

/// `r` is the answer to the request `id` with a receipt.
pub open spec fn is_answered(r: ApiResponse, id: Seq<char>, receipt: ReceiptModel) -> bool {
    &&& r.id@ == id
    &&& r.outcome is Success
    &&& r.outcome->Success_0 is AgentQueueReceipt
    &&& r.outcome->Success_0->queue@ == receipt
}

/// The code that storage trouble is answered with.
pub open spec fn trouble_code(kind: StoreErrorKind) -> Seq<char> {
    match kind {
        StoreErrorKind::Busy => "store_busy"@,
        StoreErrorKind::Full => "store_full"@,
        StoreErrorKind::Corrupt => "store_corrupt"@,
        StoreErrorKind::Unavailable => "store_unavailable"@,
    }
}

/// Subscribers were told once, of `receipt`.
pub open spec fn tells_once(
    before: Seq<EventEnvelope>,
    after: Seq<EventEnvelope>,
    receipt: ReceiptModel,
) -> bool {
    &&& after.len() == before.len() + 1
    &&& forall|i: int| 0 <= i < before.len() ==> after[i] == #[trigger] before[i]
    &&& after.last().event == EventKind::AgentQueueUpdated
    &&& after.last().data->queue@ == receipt
}

/// The form of a request to enqueue is in order: version 1, a UUID, a key of 1 to 512 bytes without
/// control characters, and a text of 1 to 16384 bytes without NUL.
pub open spec fn is_well_formed(params: AgentEnqueueParams) -> bool {
    &&& params.version == 1
    &&& uuid_text(params.instance_id@) is Some
    &&& is_good_key(params.idempotency_key@)
    &&& is_good_text(params.text@)
}

/// A key of 1 to 512 bytes without control characters.
pub open spec fn is_good_key(key: Seq<char>) -> bool {
    &&& key.len() > 0
    &&& encode_utf8(key).len() <= 512
    &&& forall|k: int|
        0 <= k < key.len() ==> (#[trigger] key[k] as u32) >= 0x20 && !(0x7f <= key[k] as u32
            <= 0x9f)
}

/// A text of 1 to 16384 bytes without NUL.
pub open spec fn is_good_text(text: Seq<char>) -> bool {
    &&& text.len() > 0
    &&& encode_utf8(text).len() <= 16384
    &&& forall|k: int| 0 <= k < text.len() ==> #[trigger] text[k] != '\0'
}

/// A well-formed request to enqueue for the instance that some terminal runs is let through,
/// whatever else is in that terminal or in the others.
pub proof fn law_running_instances_are_let_through(
    state: AppState,
    params: AgentEnqueueParams,
    i: int,
)
    requires
        is_well_formed(params),
        0 <= i < state.terminals@.len(),
        state.terminals@[i].agent_instance_id is Some,
        Some(state.terminals@[i].agent_instance_id->0@) == uuid_text(params.instance_id@),
    ensures
        enqueue_refusal(state, params) is None,
{
    law_control_characters(params.idempotency_key@);
    assert(runs(state.terminals@[i], uuid_text(params.instance_id@)->0));
}

/// Why a request to enqueue is refused: the first thing that is wrong with it, in this order.
pub proof fn law_enqueue_refusals(state: AppState, params: AgentEnqueueParams)
    ensures
        ({
            let refusal = enqueue_refusal(state, params);
            let instance = uuid_text(params.instance_id@);
            if params.version != 1 {
                refusal == Some(("invalid_request"@, "agent enqueue version must be 1"@))
            } else if instance is None {
                refusal == Some(("invalid_request"@, "instance_id must be a UUID"@))
            } else if !is_good_key(params.idempotency_key@) {
                refusal == Some(
                    (
                        "invalid_request"@,
                        "idempotency_key must contain 1-512 non-control characters"@,
                    ),
                )
            } else if !is_good_text(params.text@) {
                refusal == Some(
                    ("invalid_request"@, "queue text must contain 1-16384 bytes and no NUL"@),
                )
            } else if forall|i: int|
                0 <= i < state.terminals@.len() && (
                #[trigger] state.terminals@[i]).agent_instance_id is Some
                    ==> state.terminals@[i].agent_instance_id->0@ != instance->0 {
                refusal == Some(
                    (
                        "instance_mismatch"@,
                        "agent instance "@ + instance->0 + " is not current"@,
                    ),
                )
            } else {
                refusal is None
            }
        }),
{
    let key = params.idempotency_key@;
    let text = params.text@;
    law_control_characters(key);
    assert(has_control_char(key) ==> !is_good_key(key)) by {
        if has_control_char(key) {
            let k = choose|k: int|
                0 <= k < key.len() && ((#[trigger] key[k] as u32) < 0x20 || 0x7f <= key[k] as u32
                    <= 0x9f);
            assert((key[k] as u32) < 0x20 || 0x7f <= key[k] as u32 <= 0x9f);
        }
    }
    assert(text.contains('\0') ==> !is_good_text(text));
    assert(!is_good_text(text) && text.len() > 0 && encode_utf8(text).len() <= 16384
        ==> text.contains('\0'));
    if uuid_text(params.instance_id@) is Some {
        let instance = uuid_text(params.instance_id@)->0;
        if exists|i: int|
            0 <= i < state.terminals@.len() && (#[trigger] state.terminals@[i]).agent_instance_id
                is Some && state.terminals@[i].agent_instance_id->0@ == instance {
            let i = choose|i: int|
                0 <= i < state.terminals@.len() && (
                #[trigger] state.terminals@[i]).agent_instance_id is Some
                    && state.terminals@[i].agent_instance_id->0@ == instance;
            assert(runs(state.terminals@[i], instance));
        }
    }
}

/// Queue errors are answered by their codes, with messages that name the row and its state.
pub proof fn law_queue_errors_are_answered(
    r: ApiResponse,
    id: Seq<char>,
    e: QueueErrorModel,
    trouble: StoreErrorModel,
)
    ensures
        answers(r, id, Err(e)) <==> match e {
            QueueErrorModel::Store(s) => is_refused(r, id, trouble_code(s.kind), s.message),
            QueueErrorModel::NotFound => is_refused(
                r,
                id,
                "queue_not_found"@,
                "agent queue row not found"@,
            ),
            QueueErrorModel::IdempotencyConflict(receipt) => is_refused(
                r,
                id,
                "idempotency_conflict"@,
                "idempotency key already belongs to queue "@ + receipt.queue_id
                    + " with different text"@,
            ),
            QueueErrorModel::AlreadySubmitted(receipt) => is_refused(
                r,
                id,
                "already_submitted"@,
                "queue "@ + receipt.queue_id + " may already have reached the terminal in state "@
                    + state_name(receipt.state),
            ),
            QueueErrorModel::InvalidTransition(receipt) => is_refused(
                r,
                id,
                "invalid_queue_state"@,
                "queue "@ + receipt.queue_id + " cannot perform that operation from state "@
                    + state_name(receipt.state),
            ),
        },
        answers_trouble(r, id, trouble) <==> is_refused(
            r,
            id,
            trouble_code(trouble.kind),
            trouble.message,
        ),
        answers_list(r, id, Err(e)) <==> answers(r, id, Err(e)),
{
}

/// A result is answered with what it is, under the id of the request.
pub proof fn law_results_are_answered(
    r: ApiResponse,
    id: Seq<char>,
    receipt: ReceiptModel,
    receipts: Seq<ReceiptModel>,
    k: int,
)
    ensures
        answers(r, id, Ok(receipt)) <==> is_answered(r, id, receipt),
        answers_list(r, id, Ok(receipts)) ==> {
            &&& r.id@ == id
            &&& r.outcome is Success
            &&& r.outcome->Success_0 is AgentQueueList
            &&& r.outcome->Success_0->queues@.len() == receipts.len()
            &&& 0 <= k < receipts.len() ==> r.outcome->Success_0->queues@[k]@ == receipts[k]
        },
{
}

/// The server's queue is its store's, or the reason why there is none.
pub proof fn law_runtimes_are_viewed_as_they_are(runtime: QueueRuntime)
    ensures
        match runtime {
            QueueRuntime::Available(store) => runtime@ == Ok::<_, StoreErrorModel>(store@),
            QueueRuntime::Unavailable(e) => runtime@ == Err::<QueueModel, _>(e@),
        },
{
}

/// A request to enqueue that is let through does in the queue what enqueueing does, for the
/// instance in its canonical spelling. A new row is told to subscribers once; nothing else is.
pub proof fn law_enqueue_requests(
    before: App,
    after: App,
    r: ApiResponse,
    id: Seq<char>,
    params: AgentEnqueueParams,
    queue_id: Seq<char>,
    now: i64,
)
    requires
        enqueue_carried_out(before, after, r, id, params, queue_id, now),
    ensures
        after.state == before.state,
        match before.agent_queue@ {
            Err(e) => after == before && is_refused(r, id, trouble_code(e.kind), e.message),
            Ok(q) => {
                let (next, result) = enqueue_effect(
                    q,
                    uuid_text(params.instance_id@)->0,
                    params.idempotency_key@,
                    params.text@,
                    queue_id,
                    now,
                );
                &&& after.agent_queue@ == Ok::<_, StoreErrorModel>(next)
                &&& match result {
                    Ok(outcome) => {
                        &&& is_answered(r, id, outcome.receipt)
                        &&& outcome.duplicate ==> after.events@ == before.events@
                        &&& !outcome.duplicate ==> tells_once(
                            before.events@,
                            after.events@,
                            outcome.receipt,
                        )
                    },
                    Err(e) => answers(r, id, Err(e)) && after.events@ == before.events@,
                }
            },
        },
{
    assert(after.events@.len() == before.events@.len() + 1 && after.events@.drop_last()
        == before.events@ ==> forall|i: int|
        0 <= i < before.events@.len() ==> after.events@[i] == #[trigger] before.events@[i]) by {
        if after.events@.len() == before.events@.len() + 1 && after.events@.drop_last()
            == before.events@ {
            assert forall|i: int| 0 <= i < before.events@.len() implies after.events@[i]
                == #[trigger] before.events@[i] by {
                assert(after.events@.drop_last()[i] == after.events@[i]);
            }
        }
    }
}

/// What a request to settle a row did: the queue did what the operation does, its result is the
/// answer, and subscribers are told once of a row that is in another state than it was.
pub open spec fn is_settled_request(
    before: App,
    after: App,
    r: ApiResponse,
    id: Seq<char>,
    q: QueueModel,
    queue_id: Seq<char>,
    effect: (QueueModel, Result<ReceiptModel, QueueErrorModel>),
) -> bool {
    &&& after.state == before.state
    &&& after.agent_queue@ == Ok::<_, StoreErrorModel>(effect.0)
    &&& match effect.1 {
        Ok(receipt) => {
            &&& is_answered(r, id, receipt)
            &&& if get_effect(q, queue_id) is Ok && get_effect(q, queue_id)->Ok_0.state
                != receipt.state {
                tells_once(before.events@, after.events@, receipt)
            } else {
                after.events@ == before.events@
            }
        },
        Err(e) => answers(r, id, Err(e)) && after.events@ == before.events@,
    }
}

/// Requests to cancel and to acknowledge do in the queue what canceling and acknowledging do.
pub proof fn law_settle_requests(
    before: App,
    after: App,
    r: ApiResponse,
    id: Seq<char>,
    queue_id: Seq<char>,
    now: i64,
)
    ensures
        cancel_carried_out(before, after, r, id, queue_id, now) ==> match before.agent_queue@ {
            Err(e) => after == before && is_refused(r, id, trouble_code(e.kind), e.message),
            Ok(q) => is_settled_request(
                before,
                after,
                r,
                id,
                q,
                queue_id,
                cancel_effect(q, queue_id, now),
            ),
        },
        acknowledge_carried_out(before, after, r, id, queue_id, now) ==> match before.agent_queue@ {
            Err(e) => after == before && is_refused(r, id, trouble_code(e.kind), e.message),
            Ok(q) => is_settled_request(
                before,
                after,
                r,
                id,
                q,
                queue_id,
                acknowledge_effect(q, queue_id, now),
            ),
        },
{
    assert(after.events@.len() == before.events@.len() + 1 && after.events@.drop_last()
        == before.events@ ==> forall|i: int|
        0 <= i < before.events@.len() ==> after.events@[i] == #[trigger] before.events@[i]) by {
        if after.events@.len() == before.events@.len() + 1 && after.events@.drop_last()
            == before.events@ {
            assert forall|i: int| 0 <= i < before.events@.len() implies after.events@[i]
                == #[trigger] before.events@[i] by {
                assert(after.events@.drop_last()[i] == after.events@[i]);
            }
        }
    }
}

/// End to end: a request to cancel a queued or blocked row, or to acknowledge an attempting,
/// submitted or ambiguous one, is answered with the settled row, which subscribers are told of
/// once.
pub proof fn law_settled_rows_are_answered_and_told(
    before: App,
    after: App,
    r: ApiResponse,
    id: Seq<char>,
    q: QueueModel,
    i: int,
    now: i64,
)
    requires
        before.agent_queue@ == Ok::<_, StoreErrorModel>(q),
        has_its_id_alone(q, i),
    ensures
        cancel_carried_out(before, after, r, id, q.rows[i].queue_id, now) && (q.rows[i].state
            is Queued || q.rows[i].state is Blocked) ==> {
            let queue = r.outcome->Success_0->queue@;
            &&& is_answered(r, id, queue)
            &&& queue.state is Canceled
            &&& after.agent_queue@ is Ok
            &&& after.agent_queue@->Ok_0.rows[i].state is Canceled
            &&& tells(queue, after.agent_queue@->Ok_0.rows[i])
            &&& tells_once(before.events@, after.events@, queue)
        },
        acknowledge_carried_out(before, after, r, id, q.rows[i].queue_id, now) && (q.rows[i].state
            is Attempting || q.rows[i].state is Submitted || q.rows[i].state is Ambiguous) ==> {
            let queue = r.outcome->Success_0->queue@;
            &&& is_answered(r, id, queue)
            &&& queue.state is Acknowledged
            &&& after.agent_queue@ is Ok
            &&& after.agent_queue@->Ok_0.rows[i].state is Acknowledged
            &&& tells(queue, after.agent_queue@->Ok_0.rows[i])
            &&& tells_once(before.events@, after.events@, queue)
        },
{
    law_settle_requests(before, after, r, id, q.rows[i].queue_id, now);
    law_canceling_a_row(q, i, now);
    law_acknowledging_a_row(q, i, now);
    if !(q.rows[i].state is Other) {
        law_get_tells_the_row(q, i);
    }
}

/// Slot `i` is the first of the pane, and holds the terminal.
pub open spec fn holds_pane(panes: Seq<PaneSlot>, i: int, pane_id: u64, terminal_id: u64) -> bool {
    &&& 0 <= i < panes.len()
    &&& panes[i].pane_id == pane_id
    &&& panes[i].terminal_id == terminal_id
    &&& forall|j: int| 0 <= j < i ==> (#[trigger] panes[j]).pane_id != pane_id
}

/// The terminal of a pane is that of the first slot of its workspace with the pane's id.
pub proof fn law_panes_lead_to_their_terminals(state: AppState, ws_idx: int, pane_id: u64)
    ensures
        match attached_terminal(state, ws_idx, pane_id) {
            Some(terminal_id) => {
                &&& 0 <= ws_idx < state.workspaces@.len()
                &&& exists|i: int| #[trigger]
                    holds_pane(state.workspaces@[ws_idx].panes@, i, pane_id, terminal_id)
            },
            None => 0 <= ws_idx < state.workspaces@.len() ==> forall|i: int|
                0 <= i < state.workspaces@[ws_idx].panes@.len() ==> (
                #[trigger] state.workspaces@[ws_idx].panes@[i]).pane_id != pane_id,
        },
{
    if 0 <= ws_idx < state.workspaces@.len() {
        let panes = state.workspaces@[ws_idx].panes@;
        lemma_first_where(panes, by_pane(pane_id));
        if first_where(panes, by_pane(pane_id)) is Some {
            let i = first_where(panes, by_pane(pane_id))->0;
            assert(panes[i].pane_id == pane_id);
            assert forall|j: int| 0 <= j < i implies (#[trigger] panes[j]).pane_id != pane_id by {
                assert(!by_pane(pane_id)(panes[j]));
            }
            let terminal_id = attached_terminal(state, ws_idx, pane_id)->0;
            assert(terminal_id == panes[i].terminal_id);
            assert(holds_pane(state.workspaces@[ws_idx].panes@, i, pane_id, terminal_id));
        } else {
            assert forall|i: int| 0 <= i < panes.len() implies (#[trigger] panes[i]).pane_id
                != pane_id by {
                assert(!by_pane(pane_id)(panes[i]));
            }
        }
    }
}

/// The terminal with an id is the first one that has it.
pub proof fn law_terminals_are_found_by_id(state: AppState, terminal_id: u64)
    ensures
        match terminal_with_id(state, terminal_id) {
            Some(terminal) => exists|i: int|
                {
                    &&& 0 <= i < state.terminals@.len()
                    &&& #[trigger] state.terminals@[i] == terminal
                    &&& terminal.id == terminal_id
                    &&& forall|j: int|
                        0 <= j < i ==> (#[trigger] state.terminals@[j]).id != terminal_id
                },
            None => forall|i: int|
                0 <= i < state.terminals@.len() ==> (#[trigger] state.terminals@[i]).id
                    != terminal_id,
        },
{
    let p = by_terminal(terminal_id);
    lemma_first_where(state.terminals@, p);
    match first_where(state.terminals@, p) {
        Some(i) => {
            assert(p(state.terminals@[i]));
            assert forall|j: int| 0 <= j < i implies (#[trigger] state.terminals@[j]).id
                != terminal_id by {
                assert(!p(state.terminals@[j]));
            }
        },
        None => {
            assert forall|i: int| 0 <= i < state.terminals@.len() implies (
            #[trigger] state.terminals@[i]).id != terminal_id by {
                assert(!p(state.terminals@[i]));
            }
        },
    }
}

} // verus!
