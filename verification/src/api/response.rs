//! Requests and answers of the agent API.
use crate::api::schema::{AgentQueueReceipt, AgentQueueState, ReceiptModel};
use vstd::prelude::*;

verus! {

/// `serde_json::Value`, a JSON value. It is only handed through.
#[verifier::external_type_specification]
#[verifier::external_body]
pub struct ExValue(serde_json::Value);

/// Asks to enqueue a text for an agent instance.
#[derive(Debug, PartialEq, Eq)]
pub struct AgentEnqueueParams {
    pub version: u32,
    pub instance_id: String,
    pub idempotency_key: String,
    pub text: String,
}

/// Asks for a queue row.
#[derive(Debug, PartialEq, Eq)]
pub struct AgentQueueGetParams {
    pub queue_id: String,
}

/// Asks for the queue rows that pass the filters.
#[derive(Debug, PartialEq, Eq)]
pub struct AgentQueueListParams {
    pub instance_id: Option<String>,
    pub state: Option<AgentQueueState>,
}

/// Asks to cancel a queue row.
#[derive(Debug, PartialEq, Eq)]
pub struct AgentQueueCancelParams {
    pub queue_id: String,
}

/// Asks to acknowledge a queue row.
#[derive(Debug, PartialEq, Eq)]
pub struct AgentQueueAckParams {
    pub queue_id: String,
}

/// Names an agent.
#[derive(Debug, PartialEq, Eq)]
pub struct AgentTarget {
    pub target: String,
}

/// Asks to name an agent, or to take its name away.
#[derive(Debug, PartialEq, Eq)]
pub struct AgentRenameParams {
    pub target: String,
    pub name: Option<String>,
}

/// Asks to start an agent in a pane.
#[derive(Debug, PartialEq, Eq)]
pub struct AgentStartParams {
    pub name: String,
    pub kind: String,
    pub pane_id: String,
    pub args: Vec<String>,
    pub timeout_ms: Option<u64>,
}

/// Asks to give an agent a prompt.
#[derive(Debug, PartialEq, Eq)]
pub struct AgentPromptParams {
    pub target: String,
    pub text: String,
}

/// Asks for the text on an agent's screen.
#[derive(Debug, PartialEq, Eq)]
pub struct AgentReadParams {
    pub target: String,
    pub source: String,
    pub format: String,
    pub lines: Option<u32>,
}

/// Asks to press keys in an agent's terminal.
#[derive(Debug, PartialEq, Eq)]
pub struct AgentSendKeysParams {
    pub target: String,
    pub keys: Vec<String>,
}

/// What the API says an agent is doing.
#[derive(Debug, Clone, Copy, PartialEq, Eq, Structural)]
pub enum AgentStatus {
    Idle,
    Working,
    Blocked,
    Done,
    Unknown,
}

/// What the API tells of an agent.
#[derive(Debug, PartialEq, Eq)]
pub struct AgentInfo {
    pub name: Option<String>,
    pub agent_status: AgentStatus,
    pub agent_instance_id: Option<String>,
}

/// Text that was read from a pane.
#[derive(Debug, PartialEq, Eq)]
pub struct PaneReadResult {
    pub pane_id: String,
    pub workspace_id: String,
    pub tab_id: String,
    pub source: String,
    pub format: String,
    pub text: String,
    pub revision: u64,
    pub truncated: bool,
}

/// The value of one field of an explanation.
#[derive(Debug, PartialEq, Eq)]
pub enum ExplainValue {
    Null,
    Bool(bool),
    Text(String),
    EmptyList,
}

/// One field of an explanation.
#[derive(Debug, PartialEq, Eq)]
pub struct ExplainField {
    pub name: String,
    pub value: ExplainValue,
}

/// The contents of an [`ExplainValue`].
#[verifier::ext_equal]
pub enum ExplainModel {
    Null,
    Bool(bool),
    Text(Seq<char>),
    EmptyList,
}

impl View for ExplainValue {
    type V = ExplainModel;

    open spec fn view(&self) -> ExplainModel {
        match self {
            ExplainValue::Null => ExplainModel::Null,
            ExplainValue::Bool(value) => ExplainModel::Bool(*value),
            ExplainValue::Text(text) => ExplainModel::Text(text@),
            ExplainValue::EmptyList => ExplainModel::EmptyList,
        }
    }
}

/// The contents of an explanation's fields, in their order.
pub open spec fn fields_view(fields: Seq<ExplainField>) -> Seq<(Seq<char>, ExplainModel)> {
    fields.map_values(|field: ExplainField| (field.name@, field.value@))
}

/// Why an agent is taken to be in the state that it is in.
#[derive(Debug, PartialEq)]
pub enum Explanation {
    /// Its hooks report the state, and the screen is not looked at.
    HookAuthority(Vec<ExplainField>),
    /// What looking at the screen showed.
    Screen(serde_json::Value),
}

/// What a request that succeeded is answered.
#[derive(Debug, PartialEq)]
pub enum ResponseResult {
    AgentQueueReceipt { queue: AgentQueueReceipt },
    AgentQueueList { queues: Vec<AgentQueueReceipt> },
    AgentList { agents: Vec<AgentInfo> },
    AgentInfo { agent: AgentInfo },
    AgentStarted { agent: AgentInfo, argv: Vec<String> },
    AgentPrompted { agent: AgentInfo },
    PaneRead { read: PaneReadResult },
    AgentExplain { explain: Explanation },
    /// There is nothing to tell but that it was done.
    Done {},
}

/// What a request that failed is answered.
#[derive(Debug, PartialEq, Eq)]
pub struct ErrorBody {
    pub code: String,
    pub message: String,
}

/// The outcome of a request.
#[derive(Debug, PartialEq)]
pub enum ApiOutcome {
    Success(ResponseResult),
    Error(ErrorBody),
}

/// The answer to the request `id`.
#[derive(Debug, PartialEq)]
pub struct ApiResponse {
    pub id: String,
    pub outcome: ApiOutcome,
}

/// `r` answers the request `id` with an error.
pub open spec fn is_error(
    r: ApiResponse,
    id: Seq<char>,
    code: Seq<char>,
    message: Seq<char>,
) -> bool {
    &&& r.id@ == id
    &&& r.outcome matches ApiOutcome::Error(body) && body.code@ == code && body.message@ == message
}

/// `r` answers the request `id` with a receipt.
pub open spec fn shows_receipt(r: ApiResponse, id: Seq<char>, receipt: ReceiptModel) -> bool {
    &&& r.id@ == id
    &&& r.outcome matches ApiOutcome::Success(ResponseResult::AgentQueueReceipt { queue }) && queue@
        == receipt
}

/// The answer with an error.
pub fn encode_error(id: String, code: &str, message: String) -> (r: ApiResponse)
    ensures
        is_error(r, id@, code@, message@),
        r.id == id,
{
    encode_error_body(id, ErrorBody { code: code.to_owned(), message })
}

/// The answer with an error that is put together already.
pub fn encode_error_body(id: String, body: ErrorBody) -> (r: ApiResponse)
    ensures
        r == (ApiResponse { id, outcome: ApiOutcome::Error(body) }),
{
    ApiResponse { id, outcome: ApiOutcome::Error(body) }
}

/// The answer with a result.
pub fn encode_success(id: String, result: ResponseResult) -> (r: ApiResponse)
    ensures
        r == (ApiResponse { id, outcome: ApiOutcome::Success(result) }),
{
    ApiResponse { id, outcome: ApiOutcome::Success(result) }
}

/// Tells subscribers of a change.
#[derive(Debug, PartialEq, Eq)]
pub enum EventData {
    AgentQueueUpdated { queue: AgentQueueReceipt },
}

/// The kinds of events.
#[derive(Debug, Clone, Copy, PartialEq, Eq, Structural)]
pub enum EventKind {
    AgentQueueUpdated,
}

/// An event for subscribers.
#[derive(Debug, PartialEq, Eq)]
pub struct EventEnvelope {
    pub event: EventKind,
    pub data: EventData,
}

/// `after` is `before` with the event for `receipt` appended, if there is one.
pub open spec fn emits(
    before: Seq<EventEnvelope>,
    after: Seq<EventEnvelope>,
    receipt: Option<ReceiptModel>,
) -> bool {
    match receipt {
        None => after == before,
        Some(receipt) => {
            &&& after.len() == before.len() + 1
            &&& after.drop_last() == before
            &&& after.last().event is AgentQueueUpdated
            &&& after.last().data matches EventData::AgentQueueUpdated { queue } && queue@
                == receipt
        },
    }
}

} // verus!
