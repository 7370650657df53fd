//! The server as the agent API sees it, and the handlers of the queue requests.
use crate::api::response::{
    AgentEnqueueParams, AgentQueueAckParams, AgentQueueCancelParams, AgentQueueGetParams,
    AgentQueueListParams, ApiOutcome, ApiResponse, ErrorBody, EventData, EventEnvelope, EventKind,
    ResponseResult, emits, encode_error, encode_error_body, encode_success, is_error, shows_receipt,
};
use crate::api::schema::{AgentQueueReceipt, state_name};
use crate::api::state::{AppState, is_current_instance};
use crate::clock::now_ms;
use crate::ident::{AgentInstanceId, is_random_uuid, random_uuid, uuid_text};
use crate::queue::error::{QueueError, QueueErrorModel, StoreError, StoreErrorModel, store_code};
use crate::queue::model::{
    ListResult, OutcomeModel, QueueModel, ReceiptResult, acknowledge_effect, cancel_effect,
    enqueue_effect, get_effect, list_effect,
};
use crate::queue::runtime::QueueRuntime;
use crate::queue::store::{EnqueueOutcome, receipts_view};
use crate::text::{
    any_control, byte_len, concat2, concat3, contains_char, has_control_char, text_len,
};
use vstd::prelude::*;

verus! {

/// The longest idempotency key, in bytes.
pub const MAX_KEY_BYTES: usize = 512;

/// The longest queue text, in bytes.
pub const MAX_TEXT_BYTES: usize = 16_384;

/// The server: its terminals, its queue, and the events that wait for subscribers.
#[derive(Debug)]
pub struct App {
    pub state: AppState,
    pub agent_queue: QueueRuntime,
    pub events: Vec<EventEnvelope>,
}

/// The API code of a queue error.
pub open spec fn queue_error_code(e: QueueErrorModel) -> Seq<char> {
    match e {
        QueueErrorModel::Store(e) => store_code(e.kind),
        QueueErrorModel::NotFound => "queue_not_found"@,
        QueueErrorModel::IdempotencyConflict(_) => "idempotency_conflict"@,
        QueueErrorModel::AlreadySubmitted(_) => "already_submitted"@,
        QueueErrorModel::InvalidTransition(_) => "invalid_queue_state"@,
    }
}

/// The message for a queue error.
pub open spec fn queue_error_message(e: QueueErrorModel) -> Seq<char> {
    match e {
        QueueErrorModel::Store(e) => e.message,
        QueueErrorModel::NotFound => "agent queue row not found"@,
        QueueErrorModel::IdempotencyConflict(receipt) =>
            "idempotency key already belongs to queue "@ + receipt.queue_id
            + " with different text"@,
        QueueErrorModel::AlreadySubmitted(receipt) => "queue "@ + receipt.queue_id
            + " may already have reached the terminal in state "@ + state_name(receipt.state),
        QueueErrorModel::InvalidTransition(receipt) => "queue "@ + receipt.queue_id
            + " cannot perform that operation from state "@ + state_name(receipt.state),
    }
}

/// `r` answers the request `id` with the result of a queue operation.
pub open spec fn answers(r: ApiResponse, id: Seq<char>, result: ReceiptResult) -> bool {
    match result {
        Ok(receipt) => shows_receipt(r, id, receipt),
        Err(e) => is_error(r, id, queue_error_code(e), queue_error_message(e)),
    }
}

/// `r` answers the request `id` with storage trouble.
pub open spec fn answers_trouble(r: ApiResponse, id: Seq<char>, e: StoreErrorModel) -> bool {
    is_error(r, id, store_code(e.kind), e.message)
}

/// The answer to a request that storage trouble stopped.
pub fn encode_queue_store_error(id: String, error: StoreError) -> (r: ApiResponse)
    ensures
        answers_trouble(r, id@, error@),
{
    encode_error(id, error.kind.code(), error.message)
}

/// The answer to a queue request that was refused.
pub fn encode_queue_error(id: String, error: QueueError) -> (r: ApiResponse)
    ensures
        is_error(r, id@, queue_error_code(error@), queue_error_message(error@)),
{
    match error {
        QueueError::Store(error) => encode_queue_store_error(id, error),
        QueueError::NotFound => encode_error(
            id,
            "queue_not_found",
            "agent queue row not found".to_owned(),
        ),
        QueueError::IdempotencyConflict(receipt) => encode_error(
            id,
            "idempotency_conflict",
            concat3(
                "idempotency key already belongs to queue ",
                receipt.queue_id.as_str(),
                " with different text",
            ),
        ),
        QueueError::AlreadySubmitted(receipt) => encode_error(
            id,
            "already_submitted",
            concat2(
                concat3(
                    "queue ",
                    receipt.queue_id.as_str(),
                    " may already have reached the terminal in state ",
                ).as_str(),
                receipt.state.as_str(),
            ),
        ),
        QueueError::InvalidTransition(receipt) => encode_error(
            id,
            "invalid_queue_state",
            concat2(
                concat3(
                    "queue ",
                    receipt.queue_id.as_str(),
                    " cannot perform that operation from state ",
                ).as_str(),
                receipt.state.as_str(),
            ),
        ),
    }
}

/// Why a request to enqueue is refused before the queue is looked at, if it is: the code and
/// the message.
pub open spec fn enqueue_refusal(state: AppState, params: AgentEnqueueParams) -> Option<
    (Seq<char>, Seq<char>),
> {
    if params.version != 1 {
        Some(("invalid_request"@, "agent enqueue version must be 1"@))
    } else if uuid_text(params.instance_id@) is None {
        Some(("invalid_request"@, "instance_id must be a UUID"@))
    } else if params.idempotency_key@.len() == 0 || byte_len(params.idempotency_key@)
        > MAX_KEY_BYTES || has_control_char(params.idempotency_key@) {
        Some(
            ("invalid_request"@, "idempotency_key must contain 1-512 non-control characters"@),
        )
    } else if params.text@.len() == 0 || byte_len(params.text@) > MAX_TEXT_BYTES
        || params.text@.contains('\0') {
        Some(("invalid_request"@, "queue text must contain 1-16384 bytes and no NUL"@))
    } else if !is_current_instance(state, uuid_text(params.instance_id@)->0) {
        Some(
            (
                "instance_mismatch"@,
                "agent instance "@ + uuid_text(params.instance_id@)->0 + " is not current"@,
            ),
        )
    } else {
        None
    }
}

/// What the server becomes and answers when the queue operation has given `effect`: the answer
/// shows its result, and a change that is `told` goes out as an event.
pub open spec fn carried_out(
    before: App,
    after: App,
    r: ApiResponse,
    id: Seq<char>,
    effect: (QueueModel, ReceiptResult),
    told: bool,
) -> bool {
    &&& after.state == before.state
    &&& after.agent_queue@ == Ok::<_, StoreErrorModel>(effect.0)
    &&& answers(r, id, effect.1)
    &&& emits(
        before.events@,
        after.events@,
        if effect.1 is Ok && told {
            Some(effect.1->Ok_0)
        } else {
            None
        },
    )
}

/// A request to enqueue that was let through, carried out with `queue_id` and `now`.
pub open spec fn enqueue_carried_out(
    before: App,
    after: App,
    r: ApiResponse,
    id: Seq<char>,
    params: AgentEnqueueParams,
    queue_id: Seq<char>,
    now: i64,
) -> bool {
    match before.agent_queue@ {
        Err(e) => after == before && answers_trouble(r, id, e),
        Ok(q) => {
            let (next, result) = enqueue_effect(
                q,
                uuid_text(params.instance_id@)->0,
                params.idempotency_key@,
                params.text@,
                queue_id,
                now,
            );
            carried_out(
                before,
                after,
                r,
                id,
                (next, outcome_receipt(result)),
                result is Ok && !result->Ok_0.duplicate,
            )
        },
    }
}

/// The receipt that enqueueing gave.
pub open spec fn outcome_receipt(r: Result<OutcomeModel, QueueErrorModel>) -> ReceiptResult {
    match r {
        Ok(outcome) => Ok(outcome.receipt),
        Err(e) => Err(e),
    }
}

/// The row is in another state than it was in.
pub open spec fn state_changed(before: ReceiptResult, after: ReceiptResult) -> bool {
    before is Ok && after is Ok && before->Ok_0.state != after->Ok_0.state
}

/// `r` answers the request `id` with the result of listing.
pub open spec fn answers_list(r: ApiResponse, id: Seq<char>, result: ListResult) -> bool {
    match result {
        Ok(receipts) => {
            &&& r.id@ == id
            &&& r.outcome matches ApiOutcome::Success(ResponseResult::AgentQueueList { queues })
                && receipts_view(queues@) == receipts
        },
        Err(e) => is_error(r, id, queue_error_code(e), queue_error_message(e)),
    }
}

/// A request to cancel a row, carried out at the time `now`: subscribers hear of it if the row's
/// state has changed.
pub open spec fn cancel_carried_out(
    before: App,
    after: App,
    r: ApiResponse,
    id: Seq<char>,
    queue_id: Seq<char>,
    now: i64,
) -> bool {
    match before.agent_queue@ {
        Err(e) => after == before && answers_trouble(r, id, e),
        Ok(q) => carried_out(
            before,
            after,
            r,
            id,
            cancel_effect(q, queue_id, now),
            state_changed(get_effect(q, queue_id), cancel_effect(q, queue_id, now).1),
        ),
    }
}

/// A request to acknowledge a row, carried out at the time `now`: subscribers hear of it if the row's
/// state has changed.
pub open spec fn acknowledge_carried_out(
    before: App,
    after: App,
    r: ApiResponse,
    id: Seq<char>,
    queue_id: Seq<char>,
    now: i64,
) -> bool {
    match before.agent_queue@ {
        Err(e) => after == before && answers_trouble(r, id, e),
        Ok(q) => carried_out(
            before,
            after,
            r,
            id,
            acknowledge_effect(q, queue_id, now),
            state_changed(get_effect(q, queue_id), acknowledge_effect(q, queue_id, now).1),
        ),
    }
}

/// The error for a request that is not well formed.
fn invalid_request(message: &str) -> (r: ErrorBody)
    ensures
        r.code@ == "invalid_request"@,
        r.message@ == message@,
{
    ErrorBody { code: "invalid_request".to_owned(), message: message.to_owned() }
}

impl App {
    /// Tells subscribers that a queue row has changed.
    pub fn emit_agent_queue_updated(&mut self, queue: AgentQueueReceipt)
        ensures
            final(self).state == old(self).state,
            final(self).agent_queue == old(self).agent_queue,
            emits(old(self).events@, final(self).events@, Some(queue@)),
    {
        self.events.push(
            EventEnvelope {
                event: EventKind::AgentQueueUpdated,
                data: EventData::AgentQueueUpdated { queue },
            },
        );
        assert(self.events@.drop_last() =~= old(self).events@);
    }

    /// Checks a request to enqueue before the queue is looked at: the canonical id of the instance,
    /// or why the request is refused.
    pub fn validate_enqueue(&self, params: &AgentEnqueueParams) -> (r: Result<String, ErrorBody>)
        ensures
            match enqueue_refusal(self.state, *params) {
                Some(refusal) => r is Err && r->Err_0.code@ == refusal.0 && r->Err_0.message@
                    == refusal.1,
                None => r is Ok && uuid_text(params.instance_id@) == Some(r->Ok_0@),
            },
    {
        if params.version != 1 {
            return Err(invalid_request("agent enqueue version must be 1"));
        }
        let instance_id: String = match AgentInstanceId::parse(params.instance_id.as_str()) {
            Some(instance_id) => instance_id.into_text(),
            None => {
                return Err(invalid_request("instance_id must be a UUID"));
            },
        };
        if params.idempotency_key.as_str().is_empty() || text_len(
            params.idempotency_key.as_str(),
        ) > MAX_KEY_BYTES || any_control(params.idempotency_key.as_str()) {
            return Err(
                invalid_request("idempotency_key must contain 1-512 non-control characters"),
            );
        }
        if params.text.as_str().is_empty() || text_len(params.text.as_str()) > MAX_TEXT_BYTES
            || contains_char(params.text.as_str(), '\0') {
            return Err(invalid_request("queue text must contain 1-16384 bytes and no NUL"));
        }
        if !self.state.runs_instance(instance_id.as_str()) {
            return Err(
                ErrorBody {
                    code: "instance_mismatch".to_owned(),
                    message: concat3("agent instance ", instance_id.as_str(), " is not current"),
                },
            );
        }
        Ok(instance_id)
    }

    /// Answers a request to enqueue a text.
    pub fn handle_agent_enqueue(&mut self, id: String, params: AgentEnqueueParams) -> (r:
        ApiResponse)
        ensures
            match enqueue_refusal(old(self).state, params) {
                Some(refusal) => *final(self) == *old(self) && is_error(
                    r,
                    id@,
                    refusal.0,
                    refusal.1,
                ),
                None => exists|queue_id: Seq<char>, now: i64|
                    is_random_uuid(queue_id) && #[trigger] enqueue_carried_out(
                        *old(self),
                        *final(self),
                        r,
                        id@,
                        params,
                        queue_id,
                        now,
                    ),
            },
    {
        let queue_id: String = random_uuid();
        let now: i64 = now_ms();
        self.handle_agent_enqueue_at(id, params, queue_id, now)
    }

    /// Answers a request to enqueue a text at the time `now`, with `queue_id` as the id of a
    /// new row.
    pub fn handle_agent_enqueue_at(
        &mut self,
        id: String,
        params: AgentEnqueueParams,
        queue_id: String,
        now: i64,
    ) -> (r: ApiResponse)
        ensures
            match enqueue_refusal(old(self).state, params) {
                Some(refusal) => *final(self) == *old(self) && is_error(
                    r,
                    id@,
                    refusal.0,
                    refusal.1,
                ),
                None => enqueue_carried_out(
                    *old(self),
                    *final(self),
                    r,
                    id@,
                    params,
                    queue_id@,
                    now,
                ),
            },
    {
        let instance_id: String = match self.validate_enqueue(&params) {
            Ok(instance_id) => instance_id,
            Err(body) => {
                return encode_error_body(id, body);
            },
        };
        let outcome: EnqueueOutcome = match self.agent_queue.store_mut() {
            Ok(store) => match store.enqueue_at(
                instance_id.as_str(),
                params.idempotency_key.as_str(),
                params.text.as_str(),
                queue_id,
                now,
            ) {
                Ok(outcome) => outcome,
                Err(err) => {
                    return encode_queue_error(id, err);
                },
            },
            Err(err) => {
                return encode_queue_store_error(id, err);
            },
        };
        if !outcome.duplicate {
            self.emit_agent_queue_updated(outcome.receipt.clone());
        }
        encode_success(id, ResponseResult::AgentQueueReceipt { queue: outcome.receipt })
    }

    /// Answers a request for a queue row.
    pub fn handle_agent_queue_get(&mut self, id: String, params: AgentQueueGetParams) -> (r:
        ApiResponse)
        ensures
            *final(self) == *old(self),
            match old(self).agent_queue@ {
                Err(e) => answers_trouble(r, id@, e),
                Ok(q) => answers(r, id@, get_effect(q, params.queue_id@)),
            },
    {
        let result: Result<AgentQueueReceipt, QueueError> = match self.agent_queue.store_mut() {
            Ok(store) => store.get(params.queue_id.as_str()),
            Err(err) => {
                return encode_queue_store_error(id, err);
            },
        };
        match result {
            Ok(queue) => encode_success(id, ResponseResult::AgentQueueReceipt { queue }),
            Err(err) => encode_queue_error(id, err),
        }
    }

    /// Answers a request for the queue rows that pass the filters.
    pub fn handle_agent_queue_list(&mut self, id: String, params: AgentQueueListParams) -> (r:
        ApiResponse)
        ensures
            *final(self) == *old(self),
            if params.instance_id is Some && uuid_text(params.instance_id->0@) is None {
                is_error(r, id@, "invalid_request"@, "instance_id must be a UUID"@)
            } else {
                match old(self).agent_queue@ {
                    Err(e) => answers_trouble(r, id@, e),
                    Ok(q) => answers_list(
                        r,
                        id@,
                        list_effect(q, params.instance_id.deep_view(), params.state),
                    ),
                }
            },
    {
        let instance_id: Option<&str> = match &params.instance_id {
            Some(instance_id) => {
                if AgentInstanceId::parse(instance_id.as_str()).is_none() {
                    return encode_error(
                        id,
                        "invalid_request",
                        "instance_id must be a UUID".to_owned(),
                    );
                }
                Some(instance_id.as_str())
            },
            None => None,
        };
        let result: Result<Vec<AgentQueueReceipt>, QueueError> =
            match self.agent_queue.store_mut() {
            Ok(store) => store.list(instance_id, params.state),
            Err(err) => {
                return encode_queue_store_error(id, err);
            },
        };
        match result {
            Ok(queues) => encode_success(id, ResponseResult::AgentQueueList { queues }),
            Err(err) => encode_queue_error(id, err),
        }
    }

    /// Answers a request to cancel a queue row.
    pub fn handle_agent_queue_cancel(&mut self, id: String, params: AgentQueueCancelParams) -> (r:
        ApiResponse)
        ensures
            exists|now: i64| #[trigger]
                cancel_carried_out(*old(self), *final(self), r, id@, params.queue_id@, now),
    {
        let now: i64 = now_ms();
        self.handle_agent_queue_cancel_at(id, params, now)
    }

    /// Answers a request to cancel a queue row at the time `now`.
    pub fn handle_agent_queue_cancel_at(
        &mut self,
        id: String,
        params: AgentQueueCancelParams,
        now: i64,
    ) -> (r: ApiResponse)
        ensures
            cancel_carried_out(*old(self), *final(self), r, id@, params.queue_id@, now),
    {
        let previous: AgentQueueReceipt = match self.agent_queue.store_mut() {
            Ok(store) => match store.get(params.queue_id.as_str()) {
                Ok(previous) => previous,
                Err(err) => {
                    return encode_queue_error(id, err);
                },
            },
            Err(err) => {
                return encode_queue_store_error(id, err);
            },
        };
        let result: Result<AgentQueueReceipt, QueueError> = match self.agent_queue.store_mut() {
            Ok(store) => store.cancel_at(params.queue_id.as_str(), now),
            Err(err) => {
                return encode_queue_store_error(id, err);
            },
        };
        match result {
            Ok(queue) => {
                if queue.state != previous.state {
                    self.emit_agent_queue_updated(queue.clone());
                }
                encode_success(id, ResponseResult::AgentQueueReceipt { queue })
            },
            Err(err) => encode_queue_error(id, err),
        }
    }

    /// Answers a request to acknowledge a queue row.
    pub fn handle_agent_queue_ack(&mut self, id: String, params: AgentQueueAckParams) -> (r:
        ApiResponse)
        ensures
            exists|now: i64| #[trigger]
                acknowledge_carried_out(*old(self), *final(self), r, id@, params.queue_id@, now),
    {
        let now: i64 = now_ms();
        self.handle_agent_queue_ack_at(id, params, now)
    }

    /// Answers a request to acknowledge a queue row at the time `now`.
    pub fn handle_agent_queue_ack_at(
        &mut self,
        id: String,
        params: AgentQueueAckParams,
        now: i64,
    ) -> (r: ApiResponse)
        ensures
            acknowledge_carried_out(*old(self), *final(self), r, id@, params.queue_id@, now),
    {
        let previous: AgentQueueReceipt = match self.agent_queue.store_mut() {
            Ok(store) => match store.get(params.queue_id.as_str()) {
                Ok(previous) => previous,
                Err(err) => {
                    return encode_queue_error(id, err);
                },
            },
            Err(err) => {
                return encode_queue_store_error(id, err);
            },
        };
        let result: Result<AgentQueueReceipt, QueueError> = match self.agent_queue.store_mut() {
            Ok(store) => store.acknowledge_at(params.queue_id.as_str(), now),
            Err(err) => {
                return encode_queue_store_error(id, err);
            },
        };
        match result {
            Ok(queue) => {
                if queue.state != previous.state {
                    self.emit_agent_queue_updated(queue.clone());
                }
                encode_success(id, ResponseResult::AgentQueueReceipt { queue })
            },
            Err(err) => encode_queue_error(id, err),
        }
    }
}

} // verus!
