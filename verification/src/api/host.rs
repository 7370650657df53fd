//! What a request asks of the terminal host, and how it goes on from the host's reply.
//!
//! A handler that needs the host stops at each call: it hands out the call together with what
//! it has to remember, and is taken up again with the reply.
use crate::api::response::{
    AgentInfo, AgentStartParams, ApiOutcome, ApiResponse, ErrorBody, ResponseResult, is_error,
};
use crate::detect::Agent;
use crate::pty::input::bytes_in;
use bytes::Bytes;
use vstd::prelude::*;

verus! {

/// Where an agent's pane is.
#[derive(Debug, Clone, Copy, PartialEq, Eq, Structural)]
pub struct AgentPlace {
    pub ws_idx: usize,
    pub tab_idx: usize,
    pub pane_id: u64,
}

/// The text on a terminal's screen, and the workspace of its pane.
#[derive(Debug, PartialEq, Eq)]
pub struct TerminalSnapshot {
    pub workspace_id: String,
    pub text: String,
    pub truncated: bool,
}

/// A call to the terminal host.
#[derive(Debug)]
pub enum HostCall {
    /// Tell of every agent.
    CollectAgents,
    /// Bring what is known of the agent that `target` names up to date.
    Reconcile { target: String },
    /// Tell of the agent that `target` names.
    Describe { target: String },
    /// Focus the agent that `target` names, and tell of it.
    Focus { target: String },
    /// Name the agent that `target` names, or take its name away, and tell of it.
    Rename { target: String, name: Option<String> },
    /// Start an agent, and tell of it and of its command line.
    Start(AgentStartParams),
    /// Find the agent that `target` names.
    Resolve { target: String },
    /// Tell whether there is a runtime at a place, and whether it hosts `agent`.
    CheckHosting { at: AgentPlace, agent: Agent },
    /// Tell whether there is a runtime at a place.
    CheckRuntime { at: AgentPlace },
    /// Encode that the terminal has gained the focus.
    EncodeFocusGained,
    /// Encode a text and the Enter that submits it for the runtime at a place.
    EncodeSubmission { at: AgentPlace, text: String },
    /// Encode keys for the runtime at a place, or tell which of them cannot be.
    EncodeKeys { at: AgentPlace, keys: Vec<String> },
    /// Write bytes to the terminal at a place.
    SendBytes { at: AgentPlace, bytes: Bytes },
    /// Write bytes to the terminal at a place after a delay.
    SendBytesAfter { at: AgentPlace, bytes: Bytes, delay_ms: u64 },
    /// Tell of the agent at a place.
    DescribeAt { at: AgentPlace },
    /// Read the screen at a place.
    Snapshot { at: AgentPlace, source: String, format: String, lines: Option<u32> },
    /// Tell the public ids of the pane and the tab of a place.
    PublicIds { at: AgentPlace },
    /// Explain from the screen at a place what state `agent` is in.
    ExplainScreen { at: AgentPlace, agent: Agent },
}

/// The host's reply to a call.
#[derive(Debug)]
pub enum HostReply {
    Agents(Vec<AgentInfo>),
    Reconciled,
    Described(Result<AgentInfo, ErrorBody>),
    Started(Result<(AgentInfo, Vec<String>), ErrorBody>),
    Resolved(Result<AgentPlace, ErrorBody>),
    /// Whether the runtime hosts the agent, where there is one.
    Hosting(Option<bool>),
    Runtime(bool),
    FocusEncoded(Result<Vec<u8>, String>),
    Submission { text: Vec<u8>, enter: Vec<u8> },
    KeysEncoded(Result<Vec<Vec<u8>>, String>),
    Sent(Result<(), String>),
    Scheduled,
    DescribedAt(Option<AgentInfo>),
    Snapshot(Option<TerminalSnapshot>),
    PublicIds { pane: Option<String>, tab: String },
    Explained(serde_json::Value),
}

/// How far a prompt has got.
#[derive(Debug)]
pub enum PromptStage {
    Resolve { target: String, text: String },
    Check { target: String, text: String, at: AgentPlace, agent: Agent },
    EncodeFocus { target: String, text: String, at: AgentPlace },
    SendFocus { target: String, text: String, at: AgentPlace },
    EncodeText { target: String, at: AgentPlace },
    SendText { target: String, at: AgentPlace, enter: Vec<u8> },
    ScheduleEnter { target: String, at: AgentPlace },
    Describe { target: String },
}

/// How far a read has got.
#[derive(Debug)]
pub enum ReadStage {
    Resolve { target: String, source: String, format: String, lines: Option<u32> },
    Snapshot { target: String, source: String, format: String, at: AgentPlace },
    PublicIds { target: String, source: String, format: String, snapshot: TerminalSnapshot },
}

/// How far an explanation has got.
#[derive(Debug)]
pub enum ExplainStage {
    Resolve { target: String },
    Check { target: String, at: AgentPlace },
    Screen,
}

/// How far the sending of keys has got.
#[derive(Debug)]
pub enum KeysStage {
    Resolve { target: String, keys: Vec<String> },
    Check { target: String, keys: Vec<String>, at: AgentPlace },
    Encode { at: AgentPlace },
    Send,
}

/// What a request goes on with when the host has replied.
#[derive(Debug)]
pub enum Continuation {
    ListAgents,
    GetReconciled { target: String },
    ShowAgent,
    ShowStarted,
    Prompt(PromptStage),
    Read(ReadStage),
    Explain(ExplainStage),
    SendKeys(KeysStage),
}

/// A request that waits for the host.
#[derive(Debug)]
pub struct PendingCall {
    /// The request.
    pub id: String,
    /// What it asks of the host.
    pub call: HostCall,
    /// What it goes on with.
    pub next: Continuation,
}

/// Where a request stands: answered, or waiting for the host.
#[derive(Debug)]
pub enum RequestStep {
    Done(ApiResponse),
    Ask(PendingCall),
}

/// The request `id` waits for `call`, to go on with `next`.
pub open spec fn asks(step: RequestStep, id: String, call: HostCall, next: Continuation) -> bool {
    step == RequestStep::Ask(PendingCall { id, call, next })
}

/// The request `id` waits for `bytes` to be written to the terminal at `at`.
pub open spec fn asks_to_send(
    step: RequestStep,
    id: String,
    at: AgentPlace,
    bytes: Seq<u8>,
    next: Continuation,
) -> bool {
    &&& step is Ask
    &&& step->Ask_0.id == id
    &&& step->Ask_0.next == next
    &&& sends(step->Ask_0.call, at, bytes)
}

/// The call writes `bytes` to the terminal at `at`.
pub open spec fn sends(call: HostCall, at: AgentPlace, bytes: Seq<u8>) -> bool {
    call is SendBytes && call->SendBytes_at == at && bytes_in(call->SendBytes_bytes) == bytes
}

/// The call writes `bytes` to the terminal at `at` after `delay_ms` milliseconds.
pub open spec fn sends_after(call: HostCall, at: AgentPlace, bytes: Seq<u8>, delay_ms: u64) -> bool {
    &&& call is SendBytesAfter
    &&& call->SendBytesAfter_at == at
    &&& bytes_in(call->SendBytesAfter_bytes) == bytes
    &&& call->delay_ms == delay_ms
}

/// The request `id` is answered with an error.
pub open spec fn fails(
    step: RequestStep,
    id: Seq<char>,
    code: Seq<char>,
    message: Seq<char>,
) -> bool {
    step is Done && is_error(step->Done_0, id, code, message)
}

/// The request `id` is answered with the error `body`.
pub open spec fn fails_with(step: RequestStep, id: String, body: ErrorBody) -> bool {
    step == RequestStep::Done(ApiResponse { id, outcome: ApiOutcome::Error(body) })
}

/// The request `id` is answered with `result`.
pub open spec fn succeeds(step: RequestStep, id: String, result: ResponseResult) -> bool {
    step == RequestStep::Done(ApiResponse { id, outcome: ApiOutcome::Success(result) })
}

} // verus!
