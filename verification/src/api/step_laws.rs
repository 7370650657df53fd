//! How the requests that need the terminal host go, call by call, in terms of the terminals and the
//! host's replies.
use crate::api::agents::{
    explain_checked, goes_on, hook_explanation, joined, keys_recipient, prompt_recipient,
    prompt_starts,
};
use crate::api::host::{
    AgentPlace, Continuation, ExplainStage, HostCall, HostReply, KeysStage, PendingCall,
    PromptStage, ReadStage, RequestStep, TerminalSnapshot, asks, asks_to_send, fails, fails_with,
    sends, sends_after, succeeds,
};
use crate::api::laws::{follows, is_run, keys_start};
use crate::api::request_laws::{
    holds_pane, is_refused, law_panes_lead_to_their_terminals, law_terminals_are_found_by_id,
};
use crate::api::response::{
    AgentInfo, AgentPromptParams, AgentSendKeysParams, ErrorBody, ExplainField, ExplainModel,
    ExplainValue, Explanation, ResponseResult, fields_view,
};
use crate::api::state::{AppState, attached_terminal, terminal_with_id};
use crate::detect::Agent;
use crate::pty::input::bytes_in;
use vstd::prelude::*;

verus! {

/// The request `id` is answered with an error.
pub open spec fn ends_with_error(
    step: RequestStep,
    id: Seq<char>,
    code: Seq<char>,
    message: Seq<char>,
) -> bool {
    step is Done && is_refused(step->Done_0, id, code, message)
}

/// The request `id` is answered with `result`.
pub open spec fn ends_with(step: RequestStep, id: String, result: ResponseResult) -> bool {
    &&& step is Done
    &&& step->Done_0.id == id
    &&& step->Done_0.outcome is Success
    &&& step->Done_0.outcome->Success_0 == result
}

/// The request `id` is answered with the error that the host gave.
pub open spec fn ends_with_body(step: RequestStep, id: String, body: ErrorBody) -> bool {
    &&& step is Done
    &&& step->Done_0.id == id
    &&& step->Done_0.outcome is Error
    &&& step->Done_0.outcome->Error_0 == body
}

/// The request `id` waits for `call`.
pub open spec fn waits(step: RequestStep, id: String, call: HostCall) -> bool {
    step is Ask && step->Ask_0.id == id && step->Ask_0.call == call
}

/// The request `id` waits for `bytes` to be written at `at`, now.
pub open spec fn waits_to_write(
    step: RequestStep,
    id: String,
    at: AgentPlace,
    bytes: Seq<u8>,
) -> bool {
    &&& step is Ask
    &&& step->Ask_0.id == id
    &&& step->Ask_0.call is SendBytes
    &&& step->Ask_0.call->SendBytes_at == at
    &&& bytes_in(step->Ask_0.call->SendBytes_bytes) == bytes
}

/// The steps are told apart as they are: waiting for a call, waiting to write, or answered.
pub proof fn law_steps_are_what_they_say(
    step: RequestStep,
    id: String,
    call: HostCall,
    next: Continuation,
    at: AgentPlace,
    bytes: Seq<u8>,
    delay_ms: u64,
    code: Seq<char>,
    message: Seq<char>,
    body: ErrorBody,
    result: ResponseResult,
)
    ensures
        asks(step, id, call, next) <==> waits(step, id, call) && step->Ask_0.next == next,
        asks_to_send(step, id, at, bytes, next) <==> waits_to_write(step, id, at, bytes)
            && step->Ask_0.next == next,
        sends(call, at, bytes) <==> call is SendBytes && call->SendBytes_at == at && bytes_in(
            call->SendBytes_bytes,
        ) == bytes,
        sends_after(call, at, bytes, delay_ms) <==> call is SendBytesAfter
            && call->SendBytesAfter_at == at && bytes_in(call->SendBytesAfter_bytes) == bytes
            && call->delay_ms == delay_ms,
        fails(step, id@, code, message) <==> ends_with_error(step, id@, code, message),
        fails_with(step, id, body) <==> ends_with_body(step, id, body),
        succeeds(step, id, result) <==> ends_with(step, id, result),
{
}

/// Terminal `j` is the one that is attached at `at`, by slot `i` of the workspace.
pub open spec fn stands_at(state: AppState, at: AgentPlace, i: int, j: int) -> bool {
    &&& 0 <= at.ws_idx < state.workspaces@.len()
    &&& 0 <= j < state.terminals@.len()
    &&& holds_pane(
        state.workspaces@[at.ws_idx as int].panes@,
        i,
        at.pane_id,
        state.terminals@[j].id,
    )
    &&& forall|k: int|
        0 <= k < j ==> (#[trigger] state.terminals@[k]).id != state.terminals@[j].id
}

/// No slot of the place's workspace has its pane.
pub open spec fn has_no_slot(state: AppState, at: AgentPlace) -> bool {
    at.ws_idx >= state.workspaces@.len() || forall|i: int|
        0 <= i < state.workspaces@[at.ws_idx as int].panes@.len() ==> (
        #[trigger] state.workspaces@[at.ws_idx as int].panes@[i]).pane_id != at.pane_id
}

proof fn lemma_stands_at(state: AppState, at: AgentPlace, i: int, j: int)
    requires
        stands_at(state, at, i, j),
    ensures
        attached_terminal(state, at.ws_idx as int, at.pane_id) == Some(state.terminals@[j].id),
        terminal_with_id(state, state.terminals@[j].id) == Some(state.terminals@[j]),
{
    let panes = state.workspaces@[at.ws_idx as int].panes@;
    let tid = state.terminals@[j].id;
    law_panes_lead_to_their_terminals(state, at.ws_idx as int, at.pane_id);
    law_terminals_are_found_by_id(state, tid);
    assert(panes[i].pane_id == at.pane_id);
    let found = attached_terminal(state, at.ws_idx as int, at.pane_id);
    assert(found is Some) by {
        if found is None {
            assert(state.workspaces@[at.ws_idx as int].panes@[i].pane_id != at.pane_id);
        }
    }
    let k = choose|k: int| #[trigger] holds_pane(panes, k, at.pane_id, found->0);
    assert(k == i) by {
        if k < i {
            assert(panes[k].pane_id != at.pane_id);
        } else if i < k {
            assert(panes[i].pane_id != at.pane_id);
        }
    }
    let t = terminal_with_id(state, tid);
    assert(state.terminals@[j].id == tid);
    assert(t is Some);
    let m = choose|m: int|
        {
            &&& 0 <= m < state.terminals@.len()
            &&& #[trigger] state.terminals@[m] == t->0
            &&& t->0.id == tid
            &&& forall|n: int| 0 <= n < m ==> (#[trigger] state.terminals@[n]).id != tid
        };
    assert(m == j) by {
        if m < j {
            assert(state.terminals@[m].id != tid);
        } else if j < m {
            assert(state.terminals@[j].id != tid);
        }
    }
}

proof fn lemma_has_no_slot(state: AppState, at: AgentPlace)
    requires
        has_no_slot(state, at),
    ensures
        attached_terminal(state, at.ws_idx as int, at.pane_id) is None,
{
    law_panes_lead_to_their_terminals(state, at.ws_idx as int, at.pane_id);
    if attached_terminal(state, at.ws_idx as int, at.pane_id) is Some {
        let panes = state.workspaces@[at.ws_idx as int].panes@;
        let k = choose|k: int| #[trigger]
            holds_pane(
                panes,
                k,
                at.pane_id,
                attached_terminal(state, at.ws_idx as int, at.pane_id)->0,
            );
        assert(state.workspaces@[at.ws_idx as int].panes@[k].pane_id == at.pane_id);
    }
}

/// Who a prompt to a place goes to: the agent in the terminal there. It is refused as blocked if
/// and only if that terminal is blocked, and as not ready where no known agent is up in it.
pub proof fn law_prompts_look_at_the_terminal_of_the_pane(
    state: AppState,
    at: AgentPlace,
    target: Seq<char>,
    i: int,
    j: int,
)
    requires
        stands_at(state, at, i, j),
    ensures
        ({
            let terminal = state.terminals@[j];
            let r = prompt_recipient(state, at, target);
            &&& terminal.state is Blocked <==> r is Err && r->Err_0 == (
                "agent_blocked"@,
                "agent "@ + target + " is blocked and requires interactive input"@,
            )
            &&& !(terminal.state is Blocked) && (terminal.effective_known_agent is None
                || terminal.managed_agent_launch_pending) ==> r is Err && r->Err_0 == (
                "agent_not_ready"@,
                "agent "@ + target + " is not an active named agent"@,
            )
            &&& !(terminal.state is Blocked) && terminal.effective_known_agent is Some
                && !terminal.managed_agent_launch_pending ==> r is Ok && Some(r->Ok_0)
                == terminal.effective_known_agent
        }),
{
    lemma_stands_at(state, at, i, j);
    reveal_strlit("agent_blocked");
    reveal_strlit("agent_not_ready");
    assert("agent_blocked"@.len() != "agent_not_ready"@.len());
}

/// Who keys to a place go to: the known agent in the terminal there, whatever it is doing.
pub proof fn law_keys_look_at_the_terminal_of_the_pane(
    state: AppState,
    at: AgentPlace,
    target: Seq<char>,
    i: int,
    j: int,
)
    requires
        stands_at(state, at, i, j),
    ensures
        ({
            let terminal = state.terminals@[j];
            let r = keys_recipient(state, at, target);
            &&& terminal.effective_known_agent is Some ==> r is Ok && Some(r->Ok_0)
                == terminal.effective_known_agent
            &&& terminal.effective_known_agent is None ==> r is Err && r->Err_0 == (
                "agent_not_ready"@,
                "agent "@ + target + " is not an active named agent"@,
            )
        }),
{
    lemma_stands_at(state, at, i, j);
}

/// A place without a slot, or whose terminal is gone, has no agent to prompt, to send keys to or to
/// explain. Keys find such an agent not ready where only the terminal is gone.
pub proof fn law_nothing_stands_at_an_empty_place(
    state: AppState,
    at: AgentPlace,
    target: Seq<char>,
    id: String,
    step: RequestStep,
    i: int,
    terminal_id: u64,
)
    ensures
        ({
            let not_found = (
                "agent_not_found"@,
                "agent target "@ + target + " not found"@,
            );
            let terminal_gone = at.ws_idx < state.workspaces@.len() && holds_pane(
                state.workspaces@[at.ws_idx as int].panes@,
                i,
                at.pane_id,
                terminal_id,
            ) && forall|k: int|
                0 <= k < state.terminals@.len() ==> (#[trigger] state.terminals@[k]).id
                    != terminal_id;
            &&& has_no_slot(state, at) || terminal_gone ==> {
                let p = prompt_recipient(state, at, target);
                &&& p is Err && p->Err_0 == not_found
                &&& explain_checked(state, id, target, at, step) <==> ends_with_error(
                    step,
                    id@,
                    not_found.0,
                    not_found.1,
                )
            }
            &&& has_no_slot(state, at) ==> {
                let k = keys_recipient(state, at, target);
                k is Err && k->Err_0 == not_found
            }
            &&& terminal_gone ==> {
                let k = keys_recipient(state, at, target);
                k is Err && k->Err_0 == (
                    "agent_not_ready"@,
                    "agent "@ + target + " is not an active named agent"@,
                )
            }
        }),
{
    if has_no_slot(state, at) {
        lemma_has_no_slot(state, at);
    } else if at.ws_idx < state.workspaces@.len() && holds_pane(
        state.workspaces@[at.ws_idx as int].panes@,
        i,
        at.pane_id,
        terminal_id,
    ) && forall|k: int|
        0 <= k < state.terminals@.len() ==> (#[trigger] state.terminals@[k]).id != terminal_id {
        let panes = state.workspaces@[at.ws_idx as int].panes@;
        law_panes_lead_to_their_terminals(state, at.ws_idx as int, at.pane_id);
        law_terminals_are_found_by_id(state, terminal_id);
        let found = attached_terminal(state, at.ws_idx as int, at.pane_id);
        assert(found is Some) by {
            if found is None {
                assert(state.workspaces@[at.ws_idx as int].panes@[i].pane_id != at.pane_id);
            }
        }
        let k = choose|k: int| #[trigger] holds_pane(panes, k, at.pane_id, found->0);
        assert(k == i) by {
            if k < i {
                assert(panes[k].pane_id != at.pane_id);
            } else if i < k {
                assert(panes[i].pane_id != at.pane_id);
            }
        }
        assert(terminal_with_id(state, terminal_id) is None);
    }
}

/// How a prompt starts: an empty one is refused, any other waits for its target to be found.
pub proof fn law_prompts_start(id: String, params: AgentPromptParams, step: RequestStep)
    requires
        prompt_starts(id, params, step),
    ensures
        params.text@.len() == 0 ==> ends_with_error(
            step,
            id@,
            "empty_agent_prompt"@,
            "agent prompt must not be empty"@,
        ),
        params.text@.len() > 0 ==> waits(step, id, HostCall::Resolve { target: params.target }),
{
}

/// A prompt to an agent that is there, when every call succeeds: the text is encoded and written,
/// its Enter is scheduled for 300 milliseconds later, and the agent is told of, or else that the
/// target is gone. Copilot is first told that it has the focus.
pub proof fn law_prompts_go_through(
    state: AppState,
    id: String,
    params: AgentPromptParams,
    steps: Seq<RequestStep>,
    replies: Seq<HostReply>,
    at: AgentPlace,
    focus: Vec<u8>,
    text: Vec<u8>,
    enter: Vec<u8>,
    described: Option<AgentInfo>,
)
    requires
        params.text@.len() > 0,
        prompt_starts(id, params, steps[0]),
        is_run(state, steps, replies),
        prompt_recipient(state, at, params.target@) is Ok,
        replies.len() == if prompt_recipient(state, at, params.target@)->Ok_0
            == Agent::GithubCopilot {
            8int
        } else {
            6int
        },
        replies[0] == HostReply::Resolved(Ok(at)),
        replies[1] == HostReply::Hosting(Some(true)),
        ({
            let n = replies.len();
            &&& n == 8 ==> replies[2] == HostReply::FocusEncoded(Ok(focus)) && replies[3]
                == HostReply::Sent(Ok(()))
            &&& replies[n - 4] == (HostReply::Submission { text, enter })
            &&& replies[n - 3] == HostReply::Sent(Ok(()))
            &&& replies[n - 2] == HostReply::Scheduled
            &&& replies[n - 1] == HostReply::DescribedAt(described)
        }),
    ensures
        ({
            let n = replies.len();
            let recipient = prompt_recipient(state, at, params.target@)->Ok_0;
            &&& waits(steps[0], id, HostCall::Resolve { target: params.target })
            &&& waits(steps[1], id, HostCall::CheckHosting { at, agent: recipient })
            &&& n == 8 ==> waits(steps[2], id, HostCall::EncodeFocusGained) && waits_to_write(
                steps[3],
                id,
                at,
                focus@,
            )
            &&& waits(steps[n - 4], id, HostCall::EncodeSubmission { at, text: params.text })
            &&& waits_to_write(steps[n - 3], id, at, text@)
            &&& steps[n - 2] is Ask && steps[n - 2]->Ask_0.id == id
            &&& steps[n - 2]->Ask_0.call is SendBytesAfter
            &&& steps[n - 2]->Ask_0.call->SendBytesAfter_at == at
            &&& bytes_in(steps[n - 2]->Ask_0.call->SendBytesAfter_bytes) == enter@
            &&& steps[n - 2]->Ask_0.call->delay_ms == 300
            &&& waits(steps[n - 1], id, HostCall::DescribeAt { at })
            &&& match described {
                Some(agent) => ends_with(
                    steps[n as int],
                    id,
                    ResponseResult::AgentPrompted { agent },
                ),
                None => ends_with_error(
                    steps[n as int],
                    id@,
                    "agent_not_found"@,
                    "agent target "@ + params.target@ + " not found"@,
                ),
            }
        }),
{
    let n = replies.len();
    assert(follows(state, steps[0], replies[0], steps[1]));
    assert(follows(state, steps[1], replies[1], steps[2]));
    if n == 8 {
        assert(follows(state, steps[2], replies[2], steps[3]));
        assert(follows(state, steps[3], replies[3], steps[4]));
    }
    assert(follows(state, steps[n - 4], replies[n - 4], steps[n - 3]));
    assert(follows(state, steps[n - 3], replies[n - 3], steps[n - 2]));
    assert(follows(state, steps[n - 2], replies[n - 2], steps[n - 1]));
    assert(follows(state, steps[n - 1], replies[n - 1], steps[n as int]));
}

/// How a prompt ends when a call does not succeed, or its recipient may not have it.
pub proof fn law_prompts_fail(
    state: AppState,
    pending: PendingCall,
    stage: PromptStage,
    reply: HostReply,
    step: RequestStep,
)
    requires
        pending.next == Continuation::Prompt(stage),
        goes_on(state, pending, reply, step),
    ensures
        ({
            let id = pending.id;
            let not_found = |target: Seq<char>|
                ends_with_error(
                    step,
                    id@,
                    "agent_not_found"@,
                    "agent target "@ + target + " not found"@,
                );
            &&& stage matches PromptStage::Resolve { target, .. } ==> {
                &&& reply matches HostReply::Resolved(Err(body)) ==> ends_with_body(step, id, body)
                &&& reply matches HostReply::Resolved(Ok(at)) ==> (prompt_recipient(
                    state,
                    at,
                    target@,
                ) matches Err(refusal) ==> ends_with_error(step, id@, refusal.0, refusal.1))
            }
            &&& stage matches PromptStage::Check { target, .. } ==> {
                &&& reply == HostReply::Hosting(None) ==> not_found(target@)
                &&& reply == HostReply::Hosting(Some(false)) ==> ends_with_error(
                    step,
                    id@,
                    "agent_not_ready"@,
                    "agent "@ + target@ + " is no longer the pane foreground process"@,
                )
            }
            &&& stage is EncodeFocus ==> (reply matches HostReply::FocusEncoded(Err(message))
                ==> ends_with_error(step, id@, "agent_prompt_failed"@, message@))
            &&& stage is SendFocus || stage is SendText ==> (reply matches HostReply::Sent(
                Err(message),
            ) ==> ends_with_error(step, id@, "agent_prompt_failed"@, message@))
            &&& stage matches PromptStage::Describe { target } ==> (reply
                == HostReply::DescribedAt(None) ==> not_found(target@))
        }),
{
}

/// Keys for an agent that is there, when every call succeeds: they are encoded, written all
/// together, and the request is answered that it is done.
pub proof fn law_keys_go_through(
    state: AppState,
    id: String,
    params: AgentSendKeysParams,
    steps: Seq<RequestStep>,
    replies: Seq<HostReply>,
    at: AgentPlace,
    parts: Vec<Vec<u8>>,
)
    requires
        keys_start(id, params, steps[0]),
        is_run(state, steps, replies),
        keys_recipient(state, at, params.target@) is Ok,
        replies.len() == 4,
        replies[0] == HostReply::Resolved(Ok(at)),
        replies[1] == HostReply::Hosting(Some(true)),
        replies[2] == HostReply::KeysEncoded(Ok(parts)),
        replies[3] == HostReply::Sent(Ok(())),
    ensures
        waits(steps[0], id, HostCall::Resolve { target: params.target }),
        waits(
            steps[1],
            id,
            HostCall::CheckHosting {
                at,
                agent: keys_recipient(state, at, params.target@)->Ok_0,
            },
        ),
        waits(steps[2], id, HostCall::EncodeKeys { at, keys: params.keys }),
        waits_to_write(steps[3], id, at, joined(parts@)),
        ends_with(steps[4], id, ResponseResult::Done {  }),
{
    assert(follows(state, steps[0], replies[0], steps[1]));
    assert(follows(state, steps[1], replies[1], steps[2]));
    assert(follows(state, steps[2], replies[2], steps[3]));
    assert(follows(state, steps[3], replies[3], steps[4]));
}

/// How the sending of keys ends when a call does not succeed, or their recipient may not have them.
pub proof fn law_keys_fail(
    state: AppState,
    pending: PendingCall,
    stage: KeysStage,
    reply: HostReply,
    step: RequestStep,
)
    requires
        pending.next == Continuation::SendKeys(stage),
        goes_on(state, pending, reply, step),
    ensures
        ({
            let id = pending.id;
            &&& stage matches KeysStage::Resolve { target, .. } ==> {
                &&& reply matches HostReply::Resolved(Err(body)) ==> ends_with_body(step, id, body)
                &&& reply matches HostReply::Resolved(Ok(at)) ==> (keys_recipient(
                    state,
                    at,
                    target@,
                ) matches Err(refusal) ==> ends_with_error(step, id@, refusal.0, refusal.1))
            }
            &&& stage matches KeysStage::Check { target, .. } ==> {
                &&& reply == HostReply::Hosting(None) ==> ends_with_error(
                    step,
                    id@,
                    "agent_not_found"@,
                    "agent target "@ + target@ + " not found"@,
                )
                &&& reply == HostReply::Hosting(Some(false)) ==> ends_with_error(
                    step,
                    id@,
                    "agent_not_ready"@,
                    "agent "@ + target@ + " is not an active named agent"@,
                )
            }
            &&& stage is Encode ==> (reply matches HostReply::KeysEncoded(Err(key))
                ==> ends_with_error(step, id@, "invalid_key"@, "unsupported key "@ + key@))
            &&& stage is Send ==> (reply matches HostReply::Sent(Err(message))
                ==> ends_with_error(step, id@, "agent_send_keys_failed"@, message@))
        }),
{
}

/// Byte strings are joined end to end, in their order, with nothing left out.
pub proof fn law_joining_goes_end_to_end(a: Seq<Vec<u8>>, b: Seq<Vec<u8>>, part: Vec<u8>)
    ensures
        joined(Seq::empty()) == Seq::<u8>::empty(),
        joined(seq![part]) == part@,
        joined(a + b) == joined(a) + joined(b),
    decreases b.len(),
{
    assert(seq![part].drop_last() =~= Seq::empty());
    assert(joined(seq![part].drop_last()) =~= Seq::<u8>::empty());
    assert(joined(seq![part]) =~= part@);
    if b.len() == 0 {
        assert(a + b =~= a);
        assert(joined(a) + joined(b) =~= joined(a));
    } else {
        law_joining_goes_end_to_end(a, b.drop_last(), part);
        assert((a + b).drop_last() =~= a + b.drop_last());
        assert(joined(a + b) =~= joined(a) + joined(b));
    }
}

/// A read of an agent's screen, when every call succeeds: it tells what the host read, where, and
/// as what it was asked for; where the pane has no public id it is told under the target.
pub proof fn law_reads_go_through(
    state: AppState,
    id: String,
    target: String,
    source: String,
    format: String,
    lines: Option<u32>,
    steps: Seq<RequestStep>,
    replies: Seq<HostReply>,
    at: AgentPlace,
    snapshot: TerminalSnapshot,
    pane: Option<String>,
    tab: String,
)
    requires
        asks(
            steps[0],
            id,
            HostCall::Resolve { target },
            Continuation::Read(ReadStage::Resolve { target, source, format, lines }),
        ),
        is_run(state, steps, replies),
        replies.len() == 3,
        replies[0] == HostReply::Resolved(Ok(at)),
        replies[1] == HostReply::Snapshot(Some(snapshot)),
        replies[2] == (HostReply::PublicIds { pane, tab }),
    ensures
        waits(steps[1], id, HostCall::Snapshot { at, source, format, lines }),
        waits(steps[2], id, HostCall::PublicIds { at }),
        steps[3] is Done,
        steps[3]->Done_0.id == id,
        steps[3]->Done_0.outcome is Success,
        steps[3]->Done_0.outcome->Success_0 is PaneRead,
        ({
            let read = steps[3]->Done_0.outcome->Success_0->read;
            &&& pane is Some ==> read.pane_id == pane->0
            &&& pane is None ==> read.pane_id == target
            &&& read.workspace_id == snapshot.workspace_id
            &&& read.tab_id == tab
            &&& read.source == source
            &&& read.format == format
            &&& read.text == snapshot.text
            &&& read.revision == 0
            &&& read.truncated == snapshot.truncated
        }),
{
    assert(follows(state, steps[0], replies[0], steps[1]));
    assert(follows(state, steps[1], replies[1], steps[2]));
    assert(follows(state, steps[2], replies[2], steps[3]));
}

/// How a read ends when its target is not found or has no runtime.
pub proof fn law_reads_fail(
    state: AppState,
    pending: PendingCall,
    stage: ReadStage,
    reply: HostReply,
    step: RequestStep,
)
    requires
        pending.next == Continuation::Read(stage),
        goes_on(state, pending, reply, step),
    ensures
        stage is Resolve ==> (reply matches HostReply::Resolved(Err(body)) ==> ends_with_body(
            step,
            pending.id,
            body,
        )),
        stage matches ReadStage::Snapshot { target, .. } ==> (reply == HostReply::Snapshot(None)
            ==> ends_with_error(
            step,
            pending.id@,
            "agent_not_found"@,
            "agent target "@ + target@ + " not found"@,
        )),
{
}

/// How an explanation goes: the target is found, its runtime must be there, and then the terminal
/// of the pane decides.
pub proof fn law_explanations_go_step_by_step(
    state: AppState,
    pending: PendingCall,
    stage: ExplainStage,
    reply: HostReply,
    step: RequestStep,
)
    requires
        pending.next == Continuation::Explain(stage),
        goes_on(state, pending, reply, step),
    ensures
        stage matches ExplainStage::Resolve { target } ==> {
            &&& reply matches HostReply::Resolved(Err(body)) ==> ends_with_body(
                step,
                pending.id,
                body,
            )
            &&& reply matches HostReply::Resolved(Ok(at)) ==> waits(
                step,
                pending.id,
                HostCall::CheckRuntime { at },
            ) && step->Ask_0.next == Continuation::Explain(ExplainStage::Check { target, at })
        },
        stage matches ExplainStage::Check { target, at } ==> {
            &&& reply == HostReply::Runtime(false) ==> ends_with_error(
                step,
                pending.id@,
                "agent_not_found"@,
                "agent target "@ + target@ + " not found"@,
            )
            &&& reply == HostReply::Runtime(true) ==> explain_checked(
                state,
                pending.id,
                target@,
                at,
                step,
            )
        },
        stage is Screen ==> (reply matches HostReply::Explained(value) ==> ends_with(
            step,
            pending.id,
            ResponseResult::AgentExplain { explain: Explanation::Screen(value) },
        )),
{
}

/// What the terminal of the pane decides of an explanation: with hooks in charge, the screen is
/// skipped and they are named; otherwise the screen is looked at for the known agent, or else for
/// the one that was detected, and without either there is nothing to explain.
pub proof fn law_explanations_look_at_the_terminal_of_the_pane(
    state: AppState,
    id: String,
    target: Seq<char>,
    at: AgentPlace,
    step: RequestStep,
    i: int,
    j: int,
)
    requires
        stands_at(state, at, i, j),
        explain_checked(state, id, target, at, step),
    ensures
        ({
            let terminal = state.terminals@[j];
            if terminal.full_lifecycle_hook_authority_active {
                &&& step is Done
                &&& step->Done_0.id == id
                &&& step->Done_0.outcome is Success
                &&& step->Done_0.outcome->Success_0 is AgentExplain
                &&& step->Done_0.outcome->Success_0->explain is HookAuthority
                &&& fields_view(step->Done_0.outcome->Success_0->explain->HookAuthority_0@)
                    == hook_explanation(
                    match terminal.effective_agent_label {
                        Some(label) => label@,
                        None => "unknown"@,
                    },
                    terminal.state_label@,
                )
            } else {
                match (terminal.effective_known_agent, terminal.detected_agent) {
                    (Some(agent), _) => waits(step, id, HostCall::ExplainScreen { at, agent })
                        && step->Ask_0.next == Continuation::Explain(ExplainStage::Screen),
                    (None, Some(agent)) => waits(step, id, HostCall::ExplainScreen { at, agent })
                        && step->Ask_0.next == Continuation::Explain(ExplainStage::Screen),
                    (None, None) => ends_with_error(
                        step,
                        id@,
                        "agent_explain_unavailable"@,
                        "agent target "@ + target + " does not have a detected agent label"@,
                    ),
                }
            }
        }),
{
    lemma_stands_at(state, at, i, j);
}

/// What is told of an agent whose hooks are in charge: its name, its state, that the screen was
/// skipped and why, and of everything else that there is nothing.
pub proof fn law_hook_explanations_say_why(agent: Seq<char>, state: Seq<char>)
    ensures
        ({
            let told = hook_explanation(agent, state);
            let null = ExplainModel::Null;
            let no = ExplainModel::Bool(false);
            &&& told.len() == 19
            &&& told[0] == ("agent"@, ExplainModel::Text(agent))
            &&& told[1] == ("state"@, ExplainModel::Text(state))
            &&& told[2] == ("manifest_source"@, null)
            &&& told[3] == ("manifest_version"@, null)
            &&& told[4] == ("cached_remote_version"@, null)
            &&& told[5] == ("local_override_shadowing_remote"@, no)
            &&& told[6] == ("remote_update_status"@, null)
            &&& told[7] == ("remote_update_error"@, null)
            &&& told[8] == ("matched_rule"@, null)
            &&& told[9] == ("visible_idle"@, no)
            &&& told[10] == ("visible_blocker"@, no)
            &&& told[11] == ("visible_working"@, no)
            &&& told[12] == ("screen_detection_skipped"@, ExplainModel::Bool(true))
            &&& told[13] == (
                "screen_detection_skip_reason"@,
                ExplainModel::Text("full_lifecycle_hook_authority"@),
            )
            &&& told[14] == ("skip_state_update"@, no)
            &&& told[15] == ("skipped_update_reason"@, null)
            &&& told[16] == ("fallback_reason"@, null)
            &&& told[17] == ("warning"@, null)
            &&& told[18] == ("evaluated_rules"@, ExplainModel::EmptyList)
        }),
{
}

/// The fields of an explanation are viewed as they are.
pub proof fn law_fields_are_viewed_as_they_are(fields: Seq<ExplainField>, k: int)
    requires
        0 <= k < fields.len(),
    ensures
        fields_view(fields).len() == fields.len(),
        fields_view(fields)[k] == (
            fields[k].name@,
            match fields[k].value {
                ExplainValue::Null => ExplainModel::Null,
                ExplainValue::Bool(value) => ExplainModel::Bool(value),
                ExplainValue::Text(text) => ExplainModel::Text(text@),
                ExplainValue::EmptyList => ExplainModel::EmptyList,
            },
        ),
{
}

/// Listing, getting, focusing, renaming and starting answer what the host gives: the agents, the
/// agent, or the error. Getting asks for the agent once it was brought up to date.
pub proof fn law_what_the_host_gives_is_answered(
    state: AppState,
    pending: PendingCall,
    reply: HostReply,
    step: RequestStep,
)
    requires
        goes_on(state, pending, reply, step),
    ensures
        pending.next is ListAgents ==> (reply matches HostReply::Agents(agents) ==> ends_with(
            step,
            pending.id,
            ResponseResult::AgentList { agents },
        )),
        pending.next matches Continuation::GetReconciled { target } ==> (reply is Reconciled
            ==> waits(step, pending.id, HostCall::Describe { target }) && step->Ask_0.next
            == Continuation::ShowAgent),
        pending.next is ShowAgent ==> {
            &&& reply matches HostReply::Described(Ok(agent)) ==> ends_with(
                step,
                pending.id,
                ResponseResult::AgentInfo { agent },
            )
            &&& reply matches HostReply::Described(Err(body)) ==> ends_with_body(
                step,
                pending.id,
                body,
            )
        },
        pending.next is ShowStarted ==> {
            &&& reply matches HostReply::Started(Ok((agent, argv))) ==> ends_with(
                step,
                pending.id,
                ResponseResult::AgentStarted { agent, argv },
            )
            &&& reply matches HostReply::Started(Err(body)) ==> ends_with_body(
                step,
                pending.id,
                body,
            )
        },
{
}

} // verus!
