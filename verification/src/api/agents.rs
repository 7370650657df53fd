//! The handlers of the requests that need the terminal host.
use crate::api::app::App;
use crate::api::host::{
    AgentPlace, Continuation, ExplainStage, HostCall, HostReply, KeysStage, PendingCall,
    PromptStage, ReadStage, RequestStep, asks, asks_to_send, fails, fails_with, sends_after,
    succeeds,
};
use crate::api::response::{
    AgentInfo, AgentPromptParams, AgentReadParams, AgentRenameParams, AgentSendKeysParams,
    AgentStartParams, AgentTarget, ApiOutcome, ApiResponse, ExplainField, ExplainModel,
    ExplainValue, Explanation, PaneReadResult, ResponseResult, encode_error, encode_error_body,
    encode_success, fields_view, is_error,
};
use crate::api::state::{AppState, TerminalState, attached_terminal, terminal_with_id};
use crate::detect::{Agent, AgentState};
use crate::pty::input::bytes_from_vec;
use crate::text::{concat2, concat3};
use vstd::prelude::*;

verus! {

/// How long after a prompt's text the Enter that submits it is sent.
pub const AGENT_PROMPT_SUBMIT_DELAY_MS: u64 = 300;

/// A code and a message for people.
pub type Refusal = (Seq<char>, Seq<char>);

/// There is no agent that `target` names.
pub open spec fn not_found(target: Seq<char>) -> Refusal {
    ("agent_not_found"@, "agent target "@ + target + " not found"@)
}

/// No known agent is up where `target` points.
pub open spec fn not_ready(target: Seq<char>) -> Refusal {
    ("agent_not_ready"@, "agent "@ + target + " is not an active named agent"@)
}

/// The agent that `target` names waits for a person.
pub open spec fn blocked(target: Seq<char>) -> Refusal {
    ("agent_blocked"@, "agent "@ + target + " is blocked and requires interactive input"@)
}

/// Another process has taken the agent's place.
pub open spec fn replaced(target: Seq<char>) -> Refusal {
    ("agent_not_ready"@, "agent "@ + target + " is no longer the pane foreground process"@)
}

/// The request `id` is answered with a refusal.
pub open spec fn refused(step: RequestStep, id: String, refusal: Refusal) -> bool {
    fails(step, id@, refusal.0, refusal.1)
}

/// Answers that no known agent is up where `target` points.
pub fn agent_not_ready(id: String, target: &str) -> (r: ApiResponse)
    ensures
        is_error(r, id@, not_ready(target@).0, not_ready(target@).1),
{
    encode_error(
        id,
        "agent_not_ready",
        concat3("agent ", target, " is not an active named agent"),
    )
}

/// Answers that there is no agent that `target` names.
pub fn agent_not_found(id: String, target: &str) -> (r: ApiResponse)
    ensures
        is_error(r, id@, not_found(target@).0, not_found(target@).1),
{
    encode_error(id, "agent_not_found", concat3("agent target ", target, " not found"))
}

/// The terminal that is attached at a place.
pub open spec fn terminal_at(state: AppState, at: AgentPlace) -> Option<TerminalState> {
    match attached_terminal(state, at.ws_idx as int, at.pane_id) {
        Some(terminal_id) => terminal_with_id(state, terminal_id),
        None => None,
    }
}

/// Whether a prompt may go to a place: to which agent, or why not.
pub open spec fn prompt_recipient(state: AppState, at: AgentPlace, target: Seq<char>) -> Result<
    Agent,
    Refusal,
> {
    match terminal_at(state, at) {
        None => Err(not_found(target)),
        Some(terminal) => {
            if terminal.state == AgentState::Blocked {
                Err(blocked(target))
            } else if terminal.effective_known_agent is None
                || terminal.managed_agent_launch_pending {
                Err(not_ready(target))
            } else {
                Ok(terminal.effective_known_agent->0)
            }
        },
    }
}

/// How a prompt starts.
pub open spec fn prompt_starts(id: String, params: AgentPromptParams, step: RequestStep) -> bool {
    if params.text@.len() == 0 {
        fails(step, id@, "empty_agent_prompt"@, "agent prompt must not be empty"@)
    } else {
        asks(
            step,
            id,
            HostCall::Resolve { target: params.target },
            Continuation::Prompt(
                PromptStage::Resolve { target: params.target, text: params.text },
            ),
        )
    }
}

/// How a prompt that is at `stage` goes on with a reply. A reply to another call leaves it where
/// it is.
pub open spec fn prompt_goes_on(
    state: AppState,
    id: String,
    call: HostCall,
    stage: PromptStage,
    reply: HostReply,
    step: RequestStep,
) -> bool {
    match (stage, reply) {
        (PromptStage::Resolve { .. }, HostReply::Resolved(Err(body))) => fails_with(step, id, body),
        (PromptStage::Resolve { target, text }, HostReply::Resolved(Ok(at))) => match prompt_recipient(
            state,
            at,
            target@,
        ) {
            Err(refusal) => refused(step, id, refusal),
            Ok(agent) => asks(
                step,
                id,
                HostCall::CheckHosting { at, agent },
                Continuation::Prompt(PromptStage::Check { target, text, at, agent }),
            ),
        },
        (PromptStage::Check { target, .. }, HostReply::Hosting(None)) => refused(
            step,
            id,
            not_found(target@),
        ),
        (PromptStage::Check { target, .. }, HostReply::Hosting(Some(false))) => refused(
            step,
            id,
            replaced(target@),
        ),
        (PromptStage::Check { target, text, at, agent }, HostReply::Hosting(Some(true))) =>
            if agent == Agent::GithubCopilot {
                asks(
                    step,
                    id,
                    HostCall::EncodeFocusGained,
                    Continuation::Prompt(PromptStage::EncodeFocus { target, text, at }),
                )
            } else {
                asks(
                    step,
                    id,
                    HostCall::EncodeSubmission { at, text },
                    Continuation::Prompt(PromptStage::EncodeText { target, at }),
                )
            },
        (PromptStage::EncodeFocus { .. }, HostReply::FocusEncoded(Err(message))) => fails(
            step,
            id@,
            "agent_prompt_failed"@,
            message@,
        ),
        (PromptStage::EncodeFocus { target, text, at }, HostReply::FocusEncoded(Ok(focus))) =>
            asks_to_send(
                step,
                id,
                at,
                focus@,
                Continuation::Prompt(PromptStage::SendFocus { target, text, at }),
            ),
        (PromptStage::SendFocus { .. }, HostReply::Sent(Err(message))) => fails(
            step,
            id@,
            "agent_prompt_failed"@,
            message@,
        ),
        (PromptStage::SendFocus { target, text, at }, HostReply::Sent(Ok(()))) => asks(
            step,
            id,
            HostCall::EncodeSubmission { at, text },
            Continuation::Prompt(PromptStage::EncodeText { target, at }),
        ),
        (PromptStage::EncodeText { target, at }, HostReply::Submission { text, enter }) =>
            asks_to_send(
                step,
                id,
                at,
                text@,
                Continuation::Prompt(PromptStage::SendText { target, at, enter }),
            ),
        (PromptStage::SendText { .. }, HostReply::Sent(Err(message))) => fails(
            step,
            id@,
            "agent_prompt_failed"@,
            message@,
        ),
        (PromptStage::SendText { target, at, enter }, HostReply::Sent(Ok(()))) => {
            &&& step is Ask
            &&& step->Ask_0.id == id
            &&& step->Ask_0.next == Continuation::Prompt(PromptStage::ScheduleEnter { target, at })
            &&& sends_after(step->Ask_0.call, at, enter@, AGENT_PROMPT_SUBMIT_DELAY_MS)
        },
        (PromptStage::ScheduleEnter { target, at }, HostReply::Scheduled) => asks(
            step,
            id,
            HostCall::DescribeAt { at },
            Continuation::Prompt(PromptStage::Describe { target }),
        ),
        (PromptStage::Describe { target }, HostReply::DescribedAt(None)) => refused(
            step,
            id,
            not_found(target@),
        ),
        (PromptStage::Describe { .. }, HostReply::DescribedAt(Some(agent))) => succeeds(
            step,
            id,
            ResponseResult::AgentPrompted { agent },
        ),
        (stage, _) => asks(step, id, call, Continuation::Prompt(stage)),
    }
}

/// What is told of an agent whose hooks report its state.
pub open spec fn hook_explanation(agent: Seq<char>, state: Seq<char>) -> Seq<
    (Seq<char>, ExplainModel),
> {
    seq![
        ("agent"@, ExplainModel::Text(agent)),
        ("state"@, ExplainModel::Text(state)),
        ("manifest_source"@, ExplainModel::Null),
        ("manifest_version"@, ExplainModel::Null),
        ("cached_remote_version"@, ExplainModel::Null),
        ("local_override_shadowing_remote"@, ExplainModel::Bool(false)),
        ("remote_update_status"@, ExplainModel::Null),
        ("remote_update_error"@, ExplainModel::Null),
        ("matched_rule"@, ExplainModel::Null),
        ("visible_idle"@, ExplainModel::Bool(false)),
        ("visible_blocker"@, ExplainModel::Bool(false)),
        ("visible_working"@, ExplainModel::Bool(false)),
        ("screen_detection_skipped"@, ExplainModel::Bool(true)),
        ("screen_detection_skip_reason"@, ExplainModel::Text("full_lifecycle_hook_authority"@)),
        ("skip_state_update"@, ExplainModel::Bool(false)),
        ("skipped_update_reason"@, ExplainModel::Null),
        ("fallback_reason"@, ExplainModel::Null),
        ("warning"@, ExplainModel::Null),
        ("evaluated_rules"@, ExplainModel::EmptyList),
    ]
}

/// Appends a field.
fn push_field(fields: &mut Vec<ExplainField>, name: &str, value: ExplainValue)
    ensures
        fields_view(final(fields)@) == fields_view(old(fields)@).push((name@, value@)),
{
    fields.push(ExplainField { name: name.to_owned(), value });
    assert(fields_view(fields@) =~= fields_view(old(fields)@).push((name@, value@)));
}

/// Explains the state of an agent whose hooks report it.
fn explain_by_hooks(agent: String, state: String) -> (fields: Vec<ExplainField>)
    ensures
        fields_view(fields@) == hook_explanation(agent@, state@),
{
    let mut fields: Vec<ExplainField> = Vec::new();
    assert(fields_view(fields@) =~= Seq::empty());
    push_field(&mut fields, "agent", ExplainValue::Text(agent));
    push_field(&mut fields, "state", ExplainValue::Text(state));
    push_field(&mut fields, "manifest_source", ExplainValue::Null);
    push_field(&mut fields, "manifest_version", ExplainValue::Null);
    push_field(&mut fields, "cached_remote_version", ExplainValue::Null);
    push_field(&mut fields, "local_override_shadowing_remote", ExplainValue::Bool(false));
    push_field(&mut fields, "remote_update_status", ExplainValue::Null);
    push_field(&mut fields, "remote_update_error", ExplainValue::Null);
    push_field(&mut fields, "matched_rule", ExplainValue::Null);
    push_field(&mut fields, "visible_idle", ExplainValue::Bool(false));
    push_field(&mut fields, "visible_blocker", ExplainValue::Bool(false));
    push_field(&mut fields, "visible_working", ExplainValue::Bool(false));
    push_field(&mut fields, "screen_detection_skipped", ExplainValue::Bool(true));
    push_field(&mut fields, "screen_detection_skip_reason", ExplainValue::Text("full_lifecycle_hook_authority".to_owned()));
    push_field(&mut fields, "skip_state_update", ExplainValue::Bool(false));
    push_field(&mut fields, "skipped_update_reason", ExplainValue::Null);
    push_field(&mut fields, "fallback_reason", ExplainValue::Null);
    push_field(&mut fields, "warning", ExplainValue::Null);
    push_field(&mut fields, "evaluated_rules", ExplainValue::EmptyList);
    fields
}

/// What an agent is called, where nothing better is known.
pub open spec fn shown_label(terminal: TerminalState) -> Seq<char> {
    match terminal.effective_agent_label {
        Some(label) => label@,
        None => "unknown"@,
    }
}

/// The agent whose screen is looked at.
pub open spec fn screened_agent(terminal: TerminalState) -> Option<Agent> {
    match terminal.effective_known_agent {
        Some(agent) => Some(agent),
        None => terminal.detected_agent,
    }
}

/// How an explanation goes on once there is a runtime at `at`.
pub open spec fn explain_checked(
    state: AppState,
    id: String,
    target: Seq<char>,
    at: AgentPlace,
    step: RequestStep,
) -> bool {
    match terminal_at(state, at) {
        None => refused(step, id, not_found(target)),
        Some(terminal) => if terminal.full_lifecycle_hook_authority_active {
            &&& step is Done
            &&& step->Done_0.id == id
            &&& step->Done_0.outcome matches ApiOutcome::Success(
                ResponseResult::AgentExplain { explain: Explanation::HookAuthority(fields) },
            ) && fields_view(fields@) == hook_explanation(
                shown_label(terminal),
                terminal.state_label@,
            )
        } else {
            match screened_agent(terminal) {
                None => fails(
                    step,
                    id@,
                    "agent_explain_unavailable"@,
                    "agent target "@ + target + " does not have a detected agent label"@,
                ),
                Some(agent) => asks(
                    step,
                    id,
                    HostCall::ExplainScreen { at, agent },
                    Continuation::Explain(ExplainStage::Screen),
                ),
            }
        },
    }
}

/// How an explanation that is at `stage` goes on with a reply. A reply to another call leaves it
/// where it is.
pub open spec fn explain_goes_on(
    state: AppState,
    id: String,
    call: HostCall,
    stage: ExplainStage,
    reply: HostReply,
    step: RequestStep,
) -> bool {
    match (stage, reply) {
        (ExplainStage::Resolve { .. }, HostReply::Resolved(Err(body))) => fails_with(
            step,
            id,
            body,
        ),
        (ExplainStage::Resolve { target }, HostReply::Resolved(Ok(at))) => asks(
            step,
            id,
            HostCall::CheckRuntime { at },
            Continuation::Explain(ExplainStage::Check { target, at }),
        ),
        (ExplainStage::Check { target, .. }, HostReply::Runtime(false)) => refused(
            step,
            id,
            not_found(target@),
        ),
        (ExplainStage::Check { target, at }, HostReply::Runtime(true)) => explain_checked(
            state,
            id,
            target@,
            at,
            step,
        ),
        (ExplainStage::Screen, HostReply::Explained(value)) => succeeds(
            step,
            id,
            ResponseResult::AgentExplain { explain: Explanation::Screen(value) },
        ),
        (stage, _) => asks(step, id, call, Continuation::Explain(stage)),
    }
}

/// How a read that is at `stage` goes on with a reply. A reply to another call leaves it where it
/// is.
pub open spec fn read_goes_on(
    id: String,
    call: HostCall,
    stage: ReadStage,
    reply: HostReply,
    step: RequestStep,
) -> bool {
    match (stage, reply) {
        (ReadStage::Resolve { .. }, HostReply::Resolved(Err(body))) => fails_with(step, id, body),
        (ReadStage::Resolve { target, source, format, lines }, HostReply::Resolved(Ok(at))) => asks(
            step,
            id,
            HostCall::Snapshot { at, source, format, lines },
            Continuation::Read(ReadStage::Snapshot { target, source, format, at }),
        ),
        (ReadStage::Snapshot { target, .. }, HostReply::Snapshot(None)) => refused(
            step,
            id,
            not_found(target@),
        ),
        (
            ReadStage::Snapshot { target, source, format, at },
            HostReply::Snapshot(Some(snapshot)),
        ) => asks(
            step,
            id,
            HostCall::PublicIds { at },
            Continuation::Read(ReadStage::PublicIds { target, source, format, snapshot }),
        ),
        (
            ReadStage::PublicIds { target, source, format, snapshot },
            HostReply::PublicIds { pane, tab },
        ) => succeeds(
            step,
            id,
            ResponseResult::PaneRead {
                read: PaneReadResult {
                    pane_id: match pane {
                        Some(pane) => pane,
                        None => target,
                    },
                    workspace_id: snapshot.workspace_id,
                    tab_id: tab,
                    source,
                    format,
                    text: snapshot.text,
                    revision: 0,
                    truncated: snapshot.truncated,
                },
            },
        ),
        (stage, _) => asks(step, id, call, Continuation::Read(stage)),
    }
}

/// Byte strings, one after the other.
pub open spec fn joined(parts: Seq<Vec<u8>>) -> Seq<u8>
    decreases parts.len(),
{
    if parts.len() == 0 {
        Seq::empty()
    } else {
        joined(parts.drop_last()) + parts.last()@
    }
}

/// Joins byte strings.
fn join(parts: Vec<Vec<u8>>) -> (bytes: Vec<u8>)
    ensures
        bytes@ == joined(parts@),
{
    let mut bytes: Vec<u8> = Vec::new();
    let mut i: usize = 0;
    assert(parts@.take(0) =~= Seq::empty());
    while i < parts.len()
        invariant
            i <= parts.len(),
            bytes@ == joined(parts@.take(i as int)),
        decreases parts.len() - i,
    {
        let part: &Vec<u8> = &parts[i];
        let ghost before = bytes@;
        let mut j: usize = 0;
        assert(before + part@.take(0) =~= before);
        while j < part.len()
            invariant
                j <= part.len(),
                bytes@ == before + part@.take(j as int),
            decreases part.len() - j,
        {
            bytes.push(part[j]);
            j = j + 1;
            assert(bytes@ =~= before + part@.take(j as int));
        }
        assert(part@.take(part@.len() as int) =~= part@);
        i = i + 1;
        assert(parts@.take(i as int).drop_last() =~= parts@.take(i as int - 1));
    }
    assert(parts@.take(parts@.len() as int) =~= parts@);
    bytes
}

/// The agent that keys at a place go to, or why they may not be sent.
pub open spec fn keys_recipient(state: AppState, at: AgentPlace, target: Seq<char>) -> Result<
    Agent,
    Refusal,
> {
    if attached_terminal(state, at.ws_idx as int, at.pane_id) is None {
        Err(not_found(target))
    } else {
        match terminal_at(state, at) {
            Some(terminal) if terminal.effective_known_agent is Some => Ok(
                terminal.effective_known_agent->0,
            ),
            _ => Err(not_ready(target)),
        }
    }
}

/// How the sending of keys that is at `stage` goes on with a reply. A reply to another call leaves
/// it where it is.
pub open spec fn keys_go_on(
    state: AppState,
    id: String,
    call: HostCall,
    stage: KeysStage,
    reply: HostReply,
    step: RequestStep,
) -> bool {
    match (stage, reply) {
        (KeysStage::Resolve { .. }, HostReply::Resolved(Err(body))) => fails_with(step, id, body),
        (KeysStage::Resolve { target, keys }, HostReply::Resolved(Ok(at))) => match keys_recipient(
            state,
            at,
            target@,
        ) {
            Err(refusal) => refused(step, id, refusal),
            Ok(agent) => asks(
                step,
                id,
                HostCall::CheckHosting { at, agent },
                Continuation::SendKeys(KeysStage::Check { target, keys, at }),
            ),
        },
        (KeysStage::Check { target, .. }, HostReply::Hosting(None)) => refused(
            step,
            id,
            not_found(target@),
        ),
        (KeysStage::Check { target, .. }, HostReply::Hosting(Some(false))) => refused(
            step,
            id,
            not_ready(target@),
        ),
        (KeysStage::Check { keys, at, .. }, HostReply::Hosting(Some(true))) => asks(
            step,
            id,
            HostCall::EncodeKeys { at, keys },
            Continuation::SendKeys(KeysStage::Encode { at }),
        ),
        (KeysStage::Encode { .. }, HostReply::KeysEncoded(Err(key))) => fails(
            step,
            id@,
            "invalid_key"@,
            "unsupported key "@ + key@,
        ),
        (KeysStage::Encode { at }, HostReply::KeysEncoded(Ok(parts))) => asks_to_send(
            step,
            id,
            at,
            joined(parts@),
            Continuation::SendKeys(KeysStage::Send),
        ),
        (KeysStage::Send, HostReply::Sent(Err(message))) => fails(
            step,
            id@,
            "agent_send_keys_failed"@,
            message@,
        ),
        (KeysStage::Send, HostReply::Sent(Ok(()))) => succeeds(step, id, ResponseResult::Done {}),
        (stage, _) => asks(step, id, call, Continuation::SendKeys(stage)),
    }
}

/// How a request that waits for the host goes on with a reply. A reply to another call leaves it
/// where it is.
pub open spec fn goes_on(
    state: AppState,
    pending: PendingCall,
    reply: HostReply,
    step: RequestStep,
) -> bool {
    let id = pending.id;
    match pending.next {
        Continuation::ListAgents => match reply {
            HostReply::Agents(agents) => succeeds(step, id, ResponseResult::AgentList { agents }),
            _ => step == RequestStep::Ask(pending),
        },
        Continuation::GetReconciled { target } => match reply {
            HostReply::Reconciled => asks(
                step,
                id,
                HostCall::Describe { target },
                Continuation::ShowAgent,
            ),
            _ => step == RequestStep::Ask(pending),
        },
        Continuation::ShowAgent => match reply {
            HostReply::Described(Ok(agent)) => succeeds(
                step,
                id,
                ResponseResult::AgentInfo { agent },
            ),
            HostReply::Described(Err(body)) => fails_with(step, id, body),
            _ => step == RequestStep::Ask(pending),
        },
        Continuation::ShowStarted => match reply {
            HostReply::Started(Ok((agent, argv))) => succeeds(
                step,
                id,
                ResponseResult::AgentStarted { agent, argv },
            ),
            HostReply::Started(Err(body)) => fails_with(step, id, body),
            _ => step == RequestStep::Ask(pending),
        },
        Continuation::Prompt(stage) => prompt_goes_on(state, id, pending.call, stage, reply, step),
        Continuation::Read(stage) => read_goes_on(id, pending.call, stage, reply, step),
        Continuation::Explain(stage) => explain_goes_on(
            state,
            id,
            pending.call,
            stage,
            reply,
            step,
        ),
        Continuation::SendKeys(stage) => keys_go_on(state, id, pending.call, stage, reply, step),
    }
}

/// The request waits for the host.
fn ask(id: String, call: HostCall, next: Continuation) -> (step: RequestStep)
    ensures
        asks(step, id, call, next),
{
    RequestStep::Ask(PendingCall { id, call, next })
}

/// The request waits for bytes to be written.
fn ask_to_send(id: String, at: AgentPlace, bytes: Vec<u8>, next: Continuation) -> (step: RequestStep)
    ensures
        asks_to_send(step, id, at, bytes@, next),
{
    ask(id, HostCall::SendBytes { at, bytes: bytes_from_vec(bytes) }, next)
}

impl App {
    /// Starts on a request to give an agent a prompt.
    pub fn handle_agent_prompt(&self, id: String, params: AgentPromptParams) -> (step: RequestStep)
        ensures
            prompt_starts(id, params, step),
    {
        if params.text.as_str().is_empty() {
            return RequestStep::Done(
                encode_error(
                    id,
                    "empty_agent_prompt",
                    "agent prompt must not be empty".to_owned(),
                ),
            );
        }
        let target: String = params.target.clone();
        ask(
            id,
            HostCall::Resolve { target },
            Continuation::Prompt(
                PromptStage::Resolve { target: params.target, text: params.text },
            ),
        )
    }

    /// Goes on with a prompt whose recipient is found at `at`.
    fn check_prompt(&self, id: String, target: String, text: String, at: AgentPlace) -> (step:
        RequestStep)
        ensures
            match prompt_recipient(self.state, at, target@) {
                Err(refusal) => refused(step, id, refusal),
                Ok(agent) => asks(
                    step,
                    id,
                    HostCall::CheckHosting { at, agent },
                    Continuation::Prompt(PromptStage::Check { target, text, at, agent }),
                ),
            },
    {
        let terminal_id: u64 = match self.state.terminal_id(at.ws_idx, at.pane_id) {
            Some(terminal_id) => terminal_id,
            None => {
                return RequestStep::Done(agent_not_found(id, target.as_str()));
            },
        };
        let terminal: &TerminalState = match self.state.terminal(terminal_id) {
            Some(terminal) => terminal,
            None => {
                return RequestStep::Done(agent_not_found(id, target.as_str()));
            },
        };
        if terminal.state == AgentState::Blocked {
            return RequestStep::Done(
                encode_error(
                    id,
                    "agent_blocked",
                    concat3(
                        "agent ",
                        target.as_str(),
                        " is blocked and requires interactive input",
                    ),
                ),
            );
        }
        let agent: Agent = match terminal.effective_known_agent {
            Some(agent) => agent,
            None => {
                return RequestStep::Done(agent_not_ready(id, target.as_str()));
            },
        };
        if terminal.managed_agent_launch_pending {
            return RequestStep::Done(agent_not_ready(id, target.as_str()));
        }
        ask(
            id,
            HostCall::CheckHosting { at, agent },
            Continuation::Prompt(PromptStage::Check { target, text, at, agent }),
        )
    }

    /// Goes on with a prompt.
    fn go_on_with_prompt(
        &self,
        id: String,
        call: HostCall,
        stage: PromptStage,
        reply: HostReply,
    ) -> (step: RequestStep)
        ensures
            prompt_goes_on(self.state, id, call, stage, reply, step),
    {
        match (stage, reply) {
            (PromptStage::Resolve { .. }, HostReply::Resolved(Err(body))) => RequestStep::Done(
                encode_error_body(id, body),
            ),
            (PromptStage::Resolve { target, text }, HostReply::Resolved(Ok(at))) => self.check_prompt(
                id,
                target,
                text,
                at,
            ),
            (PromptStage::Check { target, .. }, HostReply::Hosting(None)) => RequestStep::Done(
                agent_not_found(id, target.as_str()),
            ),
            (PromptStage::Check { target, text, at, agent }, HostReply::Hosting(Some(hosted))) => {
                if !hosted {
                    return RequestStep::Done(
                        encode_error(
                            id,
                            "agent_not_ready",
                            concat3(
                                "agent ",
                                target.as_str(),
                                " is no longer the pane foreground process",
                            ),
                        ),
                    );
                }
                if agent == Agent::GithubCopilot {
                    // Copilot ignores Enter after it has lost the focus until it gains it again.
                    return ask(
                        id,
                        HostCall::EncodeFocusGained,
                        Continuation::Prompt(PromptStage::EncodeFocus { target, text, at }),
                    );
                }
                ask(
                    id,
                    HostCall::EncodeSubmission { at, text },
                    Continuation::Prompt(PromptStage::EncodeText { target, at }),
                )
            },
            (PromptStage::EncodeFocus { .. }, HostReply::FocusEncoded(Err(message))) =>
                RequestStep::Done(encode_error(id, "agent_prompt_failed", message)),
            (PromptStage::EncodeFocus { target, text, at }, HostReply::FocusEncoded(Ok(focus))) =>
                ask_to_send(
                    id,
                    at,
                    focus,
                    Continuation::Prompt(PromptStage::SendFocus { target, text, at }),
                ),
            (PromptStage::SendFocus { .. }, HostReply::Sent(Err(message))) => RequestStep::Done(
                encode_error(id, "agent_prompt_failed", message),
            ),
            (PromptStage::SendFocus { target, text, at }, HostReply::Sent(Ok(()))) => ask(
                id,
                HostCall::EncodeSubmission { at, text },
                Continuation::Prompt(PromptStage::EncodeText { target, at }),
            ),
            (PromptStage::EncodeText { target, at }, HostReply::Submission { text, enter }) =>
                ask_to_send(
                    id,
                    at,
                    text,
                    Continuation::Prompt(PromptStage::SendText { target, at, enter }),
                ),
            (PromptStage::SendText { .. }, HostReply::Sent(Err(message))) => RequestStep::Done(
                encode_error(id, "agent_prompt_failed", message),
            ),
            (PromptStage::SendText { target, at, enter }, HostReply::Sent(Ok(()))) => ask(
                id,
                HostCall::SendBytesAfter {
                    at,
                    bytes: bytes_from_vec(enter),
                    delay_ms: AGENT_PROMPT_SUBMIT_DELAY_MS,
                },
                Continuation::Prompt(PromptStage::ScheduleEnter { target, at }),
            ),
            (PromptStage::ScheduleEnter { target, at }, HostReply::Scheduled) => ask(
                id,
                HostCall::DescribeAt { at },
                Continuation::Prompt(PromptStage::Describe { target }),
            ),
            (PromptStage::Describe { target }, HostReply::DescribedAt(None)) => RequestStep::Done(
                agent_not_found(id, target.as_str()),
            ),
            (PromptStage::Describe { .. }, HostReply::DescribedAt(Some(agent))) =>
                RequestStep::Done(encode_success(id, ResponseResult::AgentPrompted { agent })),
            (stage, _) => ask(id, call, Continuation::Prompt(stage)),
        }
    }

    /// Starts on a request for the text on an agent's screen.
    pub fn handle_agent_read(&self, id: String, params: AgentReadParams) -> (step: RequestStep)
        ensures
            asks(
                step,
                id,
                HostCall::Resolve { target: params.target },
                Continuation::Read(
                    ReadStage::Resolve {
                        target: params.target,
                        source: params.source,
                        format: params.format,
                        lines: params.lines,
                    },
                ),
            ),
    {
        let target: String = params.target.clone();
        ask(
            id,
            HostCall::Resolve { target },
            Continuation::Read(
                ReadStage::Resolve {
                    target: params.target,
                    source: params.source,
                    format: params.format,
                    lines: params.lines,
                },
            ),
        )
    }

    /// Goes on with a read.
    fn go_on_with_read(&self, id: String, call: HostCall, stage: ReadStage, reply: HostReply) -> (step:
        RequestStep)
        ensures
            read_goes_on(id, call, stage, reply, step),
    {
        match (stage, reply) {
            (ReadStage::Resolve { .. }, HostReply::Resolved(Err(body))) => RequestStep::Done(
                encode_error_body(id, body),
            ),
            (ReadStage::Resolve { target, source, format, lines }, HostReply::Resolved(Ok(at))) => {
                let call: HostCall = HostCall::Snapshot {
                    at,
                    source: source.clone(),
                    format: format.clone(),
                    lines,
                };
                ask(
                    id,
                    call,
                    Continuation::Read(ReadStage::Snapshot { target, source, format, at }),
                )
            },
            (ReadStage::Snapshot { target, .. }, HostReply::Snapshot(None)) => RequestStep::Done(
                agent_not_found(id, target.as_str()),
            ),
            (
                ReadStage::Snapshot { target, source, format, at },
                HostReply::Snapshot(Some(snapshot)),
            ) => ask(
                id,
                HostCall::PublicIds { at },
                Continuation::Read(ReadStage::PublicIds { target, source, format, snapshot }),
            ),
            (
                ReadStage::PublicIds { target, source, format, snapshot },
                HostReply::PublicIds { pane, tab },
            ) => {
                let pane_id: String = match pane {
                    Some(pane) => pane,
                    None => target,
                };
                let read: PaneReadResult = PaneReadResult {
                    pane_id,
                    workspace_id: snapshot.workspace_id,
                    tab_id: tab,
                    source,
                    format,
                    text: snapshot.text,
                    revision: 0,
                    truncated: snapshot.truncated,
                };
                RequestStep::Done(encode_success(id, ResponseResult::PaneRead { read }))
            },
            (stage, _) => ask(id, call, Continuation::Read(stage)),
        }
    }

    /// Starts on a request to explain what state an agent is in.
    pub fn handle_agent_explain(&self, id: String, target: AgentTarget) -> (step: RequestStep)
        ensures
            asks(
                step,
                id,
                HostCall::Resolve { target: target.target },
                Continuation::Explain(ExplainStage::Resolve { target: target.target }),
            ),
    {
        let name: String = target.target.clone();
        ask(
            id,
            HostCall::Resolve { target: name },
            Continuation::Explain(ExplainStage::Resolve { target: target.target }),
        )
    }

    /// Goes on with an explanation once there is a runtime at `at`.
    fn explain_at(&self, id: String, target: &str, at: AgentPlace) -> (step: RequestStep)
        ensures
            explain_checked(self.state, id, target@, at, step),
    {
        let terminal_id: u64 = match self.state.terminal_id(at.ws_idx, at.pane_id) {
            Some(terminal_id) => terminal_id,
            None => {
                return RequestStep::Done(agent_not_found(id, target));
            },
        };
        let terminal: &TerminalState = match self.state.terminal(terminal_id) {
            Some(terminal) => terminal,
            None => {
                return RequestStep::Done(agent_not_found(id, target));
            },
        };
        if terminal.full_lifecycle_hook_authority_active {
            let label: String = match &terminal.effective_agent_label {
                Some(label) => label.clone(),
                None => "unknown".to_owned(),
            };
            let fields: Vec<ExplainField> = explain_by_hooks(label, terminal.state_label.clone());
            return RequestStep::Done(
                encode_success(
                    id,
                    ResponseResult::AgentExplain { explain: Explanation::HookAuthority(fields) },
                ),
            );
        }
        let screened: Option<Agent> = match terminal.effective_known_agent {
            Some(agent) => Some(agent),
            None => terminal.detected_agent,
        };
        match screened {
            Some(agent) => ask(
                id,
                HostCall::ExplainScreen { at, agent },
                Continuation::Explain(ExplainStage::Screen),
            ),
            None => RequestStep::Done(
                encode_error(
                    id,
                    "agent_explain_unavailable",
                    concat3("agent target ", target, " does not have a detected agent label"),
                ),
            ),
        }
    }

    /// Goes on with an explanation.
    fn go_on_with_explanation(
        &self,
        id: String,
        call: HostCall,
        stage: ExplainStage,
        reply: HostReply,
    ) -> (step: RequestStep)
        ensures
            explain_goes_on(self.state, id, call, stage, reply, step),
    {
        match (stage, reply) {
            (ExplainStage::Resolve { .. }, HostReply::Resolved(Err(body))) => RequestStep::Done(
                encode_error_body(id, body),
            ),
            (ExplainStage::Resolve { target }, HostReply::Resolved(Ok(at))) => ask(
                id,
                HostCall::CheckRuntime { at },
                Continuation::Explain(ExplainStage::Check { target, at }),
            ),
            (ExplainStage::Check { target, at }, HostReply::Runtime(there)) => {
                if !there {
                    return RequestStep::Done(agent_not_found(id, target.as_str()));
                }
                self.explain_at(id, target.as_str(), at)
            },
            (ExplainStage::Screen, HostReply::Explained(value)) => RequestStep::Done(
                encode_success(
                    id,
                    ResponseResult::AgentExplain { explain: Explanation::Screen(value) },
                ),
            ),
            (stage, _) => ask(id, call, Continuation::Explain(stage)),
        }
    }

    /// Starts on a request to press keys in an agent's terminal.
    pub fn handle_agent_send_keys(&self, id: String, params: AgentSendKeysParams) -> (step:
        RequestStep)
        ensures
            asks(
                step,
                id,
                HostCall::Resolve { target: params.target },
                Continuation::SendKeys(
                    KeysStage::Resolve { target: params.target, keys: params.keys },
                ),
            ),
    {
        let target: String = params.target.clone();
        ask(
            id,
            HostCall::Resolve { target },
            Continuation::SendKeys(
                KeysStage::Resolve { target: params.target, keys: params.keys },
            ),
        )
    }

    /// Goes on with keys whose recipient is found at `at`.
    fn check_keys(&self, id: String, target: String, keys: Vec<String>, at: AgentPlace) -> (step:
        RequestStep)
        ensures
            match keys_recipient(self.state, at, target@) {
                Err(refusal) => refused(step, id, refusal),
                Ok(agent) => asks(
                    step,
                    id,
                    HostCall::CheckHosting { at, agent },
                    Continuation::SendKeys(KeysStage::Check { target, keys, at }),
                ),
            },
    {
        let terminal_id: u64 = match self.state.terminal_id(at.ws_idx, at.pane_id) {
            Some(terminal_id) => terminal_id,
            None => {
                return RequestStep::Done(agent_not_found(id, target.as_str()));
            },
        };
        let known: Option<Agent> = match self.state.terminal(terminal_id) {
            Some(terminal) => terminal.effective_known_agent,
            None => None,
        };
        match known {
            Some(agent) => ask(
                id,
                HostCall::CheckHosting { at, agent },
                Continuation::SendKeys(KeysStage::Check { target, keys, at }),
            ),
            None => RequestStep::Done(agent_not_ready(id, target.as_str())),
        }
    }

    /// Goes on with the sending of keys.
    fn go_on_with_keys(&self, id: String, call: HostCall, stage: KeysStage, reply: HostReply) -> (step:
        RequestStep)
        ensures
            keys_go_on(self.state, id, call, stage, reply, step),
    {
        match (stage, reply) {
            (KeysStage::Resolve { .. }, HostReply::Resolved(Err(body))) => RequestStep::Done(
                encode_error_body(id, body),
            ),
            (KeysStage::Resolve { target, keys }, HostReply::Resolved(Ok(at))) => self.check_keys(
                id,
                target,
                keys,
                at,
            ),
            (KeysStage::Check { target, .. }, HostReply::Hosting(None)) => RequestStep::Done(
                agent_not_found(id, target.as_str()),
            ),
            (KeysStage::Check { target, keys, at }, HostReply::Hosting(Some(hosted))) => {
                if !hosted {
                    return RequestStep::Done(agent_not_ready(id, target.as_str()));
                }
                ask(
                    id,
                    HostCall::EncodeKeys { at, keys },
                    Continuation::SendKeys(KeysStage::Encode { at }),
                )
            },
            (KeysStage::Encode { .. }, HostReply::KeysEncoded(Err(key))) => RequestStep::Done(
                encode_error(id, "invalid_key", concat2("unsupported key ", key.as_str())),
            ),
            (KeysStage::Encode { at }, HostReply::KeysEncoded(Ok(parts))) => ask_to_send(
                id,
                at,
                join(parts),
                Continuation::SendKeys(KeysStage::Send),
            ),
            (KeysStage::Send, HostReply::Sent(Err(message))) => RequestStep::Done(
                encode_error(id, "agent_send_keys_failed", message),
            ),
            (KeysStage::Send, HostReply::Sent(Ok(()))) => RequestStep::Done(
                encode_success(id, ResponseResult::Done {  }),
            ),
            (stage, _) => ask(id, call, Continuation::SendKeys(stage)),
        }
    }

    /// Starts on a request to list the agents.
    pub fn handle_agent_list(&self, id: String) -> (step: RequestStep)
        ensures
            asks(step, id, HostCall::CollectAgents, Continuation::ListAgents),
    {
        ask(id, HostCall::CollectAgents, Continuation::ListAgents)
    }

    /// Starts on a request to tell of an agent.
    pub fn handle_agent_get(&self, id: String, target: AgentTarget) -> (step: RequestStep)
        ensures
            asks(
                step,
                id,
                HostCall::Reconcile { target: target.target },
                Continuation::GetReconciled { target: target.target },
            ),
    {
        let name: String = target.target.clone();
        ask(
            id,
            HostCall::Reconcile { target: name },
            Continuation::GetReconciled { target: target.target },
        )
    }

    /// Starts on a request to focus an agent.
    pub fn handle_agent_focus(&self, id: String, target: AgentTarget) -> (step: RequestStep)
        ensures
            asks(step, id, HostCall::Focus { target: target.target }, Continuation::ShowAgent),
    {
        ask(id, HostCall::Focus { target: target.target }, Continuation::ShowAgent)
    }

    /// Starts on a request to name an agent.
    pub fn handle_agent_rename(&self, id: String, params: AgentRenameParams) -> (step: RequestStep)
        ensures
            asks(
                step,
                id,
                HostCall::Rename { target: params.target, name: params.name },
                Continuation::ShowAgent,
            ),
    {
        ask(
            id,
            HostCall::Rename { target: params.target, name: params.name },
            Continuation::ShowAgent,
        )
    }

    /// Starts on a request to start an agent.
    pub fn handle_agent_start(&self, id: String, params: AgentStartParams) -> (step: RequestStep)
        ensures
            asks(step, id, HostCall::Start(params), Continuation::ShowStarted),
    {
        ask(id, HostCall::Start(params), Continuation::ShowStarted)
    }

    /// Goes on with a request that waited for the host. A reply to another call leaves it where it
    /// is.
    pub fn resume(&self, pending: PendingCall, reply: HostReply) -> (step: RequestStep)
        ensures
            goes_on(self.state, pending, reply, step),
    {
        let PendingCall { id, call, next } = pending;
        match (next, reply) {
            (Continuation::ListAgents, HostReply::Agents(agents)) => RequestStep::Done(
                encode_success(id, ResponseResult::AgentList { agents }),
            ),
            (Continuation::GetReconciled { target }, HostReply::Reconciled) => ask(
                id,
                HostCall::Describe { target },
                Continuation::ShowAgent,
            ),
            (Continuation::ShowAgent, HostReply::Described(Ok(agent))) => RequestStep::Done(
                encode_success(id, ResponseResult::AgentInfo { agent }),
            ),
            (Continuation::ShowAgent, HostReply::Described(Err(body))) => RequestStep::Done(
                encode_error_body(id, body),
            ),
            (Continuation::ShowStarted, HostReply::Started(Ok((agent, argv)))) =>
                RequestStep::Done(
                    encode_success(id, ResponseResult::AgentStarted { agent, argv }),
                ),
            (Continuation::ShowStarted, HostReply::Started(Err(body))) => RequestStep::Done(
                encode_error_body(id, body),
            ),
            (Continuation::Prompt(stage), reply) => self.go_on_with_prompt(id, call, stage, reply),
            (Continuation::Read(stage), reply) => self.go_on_with_read(id, call, stage, reply),
            (Continuation::Explain(stage), reply) => self.go_on_with_explanation(
                id,
                call,
                stage,
                reply,
            ),
            (Continuation::SendKeys(stage), reply) => self.go_on_with_keys(id, call, stage, reply),
            (next, _) => ask(id, call, next),
        }
    }
}

} // verus!
