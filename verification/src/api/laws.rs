//! What holds of the requests as a whole.
use crate::api::agents::{
    AGENT_PROMPT_SUBMIT_DELAY_MS, blocked, goes_on, joined, keys_recipient, prompt_recipient,
    prompt_starts, refused, terminal_at,
};
use crate::api::host::{
    AgentPlace, Continuation, ExplainStage, HostCall, HostReply, KeysStage, PendingCall,
    PromptStage, ReadStage, RequestStep, asks, fails, sends,
};
use crate::api::response::{AgentPromptParams, AgentSendKeysParams};
use crate::api::state::AppState;
use crate::detect::{Agent, AgentState};
use crate::pty::input::bytes_in;
use vstd::prelude::*;

verus! {

/// The request that a step belongs to.
pub open spec fn request_of(step: RequestStep) -> Seq<char> {
    match step {
        RequestStep::Done(r) => r.id@,
        RequestStep::Ask(pending) => pending.id@,
    }
}

/// A request keeps its id until it is answered, and is answered under it.
pub proof fn law_answers_name_their_request(
    state: AppState,
    pending: PendingCall,
    reply: HostReply,
    step: RequestStep,
)
    requires
        goes_on(state, pending, reply, step),
    ensures
        request_of(step) == pending.id@,
{
}

/// The reply is one to the call that the request waits for.
pub open spec fn fits(pending: PendingCall, reply: HostReply) -> bool {
    match pending.next {
        Continuation::ListAgents => reply is Agents,
        Continuation::GetReconciled { .. } => reply is Reconciled,
        Continuation::ShowAgent => reply is Described,
        Continuation::ShowStarted => reply is Started,
        Continuation::Prompt(stage) => match stage {
            PromptStage::Resolve { .. } => reply is Resolved,
            PromptStage::Check { .. } => reply is Hosting,
            PromptStage::EncodeFocus { .. } => reply is FocusEncoded,
            PromptStage::SendFocus { .. } => reply is Sent,
            PromptStage::EncodeText { .. } => reply is Submission,
            PromptStage::SendText { .. } => reply is Sent,
            PromptStage::ScheduleEnter { .. } => reply is Scheduled,
            PromptStage::Describe { .. } => reply is DescribedAt,
        },
        Continuation::Read(stage) => match stage {
            ReadStage::Resolve { .. } => reply is Resolved,
            ReadStage::Snapshot { .. } => reply is Snapshot,
            ReadStage::PublicIds { .. } => reply is PublicIds,
        },
        Continuation::Explain(stage) => match stage {
            ExplainStage::Resolve { .. } => reply is Resolved,
            ExplainStage::Check { .. } => reply is Runtime,
            ExplainStage::Screen => reply is Explained,
        },
        Continuation::SendKeys(stage) => match stage {
            KeysStage::Resolve { .. } => reply is Resolved,
            KeysStage::Check { .. } => reply is Hosting,
            KeysStage::Encode { .. } => reply is KeysEncoded,
            KeysStage::Send => reply is Sent,
        },
    }
}

/// The most calls that a request still makes, the one that it waits for among them.
pub open spec fn calls_left(pending: PendingCall) -> nat {
    match pending.next {
        Continuation::ListAgents | Continuation::ShowAgent | Continuation::ShowStarted => 1,
        Continuation::GetReconciled { .. } => 2,
        Continuation::Prompt(stage) => match stage {
            PromptStage::Resolve { .. } => 8,
            PromptStage::Check { .. } => 7,
            PromptStage::EncodeFocus { .. } => 6,
            PromptStage::SendFocus { .. } => 5,
            PromptStage::EncodeText { .. } => 4,
            PromptStage::SendText { .. } => 3,
            PromptStage::ScheduleEnter { .. } => 2,
            PromptStage::Describe { .. } => 1,
        },
        Continuation::Read(stage) => match stage {
            ReadStage::Resolve { .. } => 3,
            ReadStage::Snapshot { .. } => 2,
            ReadStage::PublicIds { .. } => 1,
        },
        Continuation::Explain(stage) => match stage {
            ExplainStage::Resolve { .. } => 3,
            ExplainStage::Check { .. } => 2,
            ExplainStage::Screen => 1,
        },
        Continuation::SendKeys(stage) => match stage {
            KeysStage::Resolve { .. } => 4,
            KeysStage::Check { .. } => 3,
            KeysStage::Encode { .. } => 2,
            KeysStage::Send => 1,
        },
    }
}

/// A fitting reply answers the request or brings it nearer to its answer, and any other reply
/// leaves it where it is.
pub proof fn law_fitting_replies_move_on(
    state: AppState,
    pending: PendingCall,
    reply: HostReply,
    step: RequestStep,
)
    requires
        goes_on(state, pending, reply, step),
    ensures
        fits(pending, reply) ==> step is Done || calls_left(step->Ask_0) < calls_left(pending),
        !fits(pending, reply) ==> step == RequestStep::Ask(pending),
{
}

/// From `step` the host's reply leads to `next`.
pub open spec fn follows(
    state: AppState,
    step: RequestStep,
    reply: HostReply,
    next: RequestStep,
) -> bool {
    step is Ask && goes_on(state, step->Ask_0, reply, next)
}

/// The steps of a request that the host's replies lead through.
pub open spec fn is_run(
    state: AppState,
    steps: Seq<RequestStep>,
    replies: Seq<HostReply>,
) -> bool {
    &&& steps.len() == replies.len() + 1
    &&& forall|i: int|
        0 <= i < replies.len() ==> follows(state, steps[i], #[trigger] replies[i], steps[i + 1])
}

/// Every request is answered: one that gets fitting replies makes no more calls than it has left.
pub proof fn law_every_request_is_answered(
    state: AppState,
    steps: Seq<RequestStep>,
    replies: Seq<HostReply>,
)
    requires
        is_run(state, steps, replies),
        forall|i: int| 0 <= i < replies.len() ==> fits(steps[i]->Ask_0, #[trigger] replies[i]),
        steps[0] is Ask,
    ensures
        replies.len() <= calls_left(steps[0]->Ask_0),
        replies.len() == calls_left(steps[0]->Ask_0) ==> steps.last() is Done,
{
    lemma_calls_left_fall(state, steps, replies, replies.len());
    if steps.last() is Ask {
        assert(calls_left(steps.last()->Ask_0) >= 1);
    }
}

proof fn lemma_calls_left_fall(
    state: AppState,
    steps: Seq<RequestStep>,
    replies: Seq<HostReply>,
    k: nat,
)
    requires
        is_run(state, steps, replies),
        forall|i: int| 0 <= i < replies.len() ==> fits(steps[i]->Ask_0, #[trigger] replies[i]),
        steps[0] is Ask,
        k <= replies.len(),
    ensures
        steps[k as int] is Ask ==> calls_left(steps[k as int]->Ask_0) + k <= calls_left(
            steps[0]->Ask_0,
        ),
        k <= calls_left(steps[0]->Ask_0),
    decreases k,
{
    if k > 0 {
        lemma_calls_left_fall(state, steps, replies, (k - 1) as nat);
        assert(follows(state, steps[k - 1], replies[k - 1], steps[k as int]));
        law_fitting_replies_move_on(
            state,
            steps[k - 1]->Ask_0,
            replies[k - 1],
            steps[k as int],
        );
        assert(calls_left(steps[k - 1]->Ask_0) >= 1);
    }
}

/// A call that was replied to is not made again: a request moves forward only.
pub proof fn law_requests_move_forward(
    state: AppState,
    steps: Seq<RequestStep>,
    replies: Seq<HostReply>,
    i: int,
    j: int,
)
    requires
        is_run(state, steps, replies),
        0 <= i < j < steps.len(),
        steps[j] is Ask,
    ensures
        calls_left(steps[j]->Ask_0) <= calls_left(steps[i]->Ask_0),
        fits(steps[i]->Ask_0, replies[i]) ==> calls_left(steps[j]->Ask_0) < calls_left(
            steps[i]->Ask_0,
        ),
    decreases j - i,
{
    assert(follows(state, steps[i], replies[i], steps[i + 1]));
    law_fitting_replies_move_on(state, steps[i]->Ask_0, replies[i], steps[i + 1]);
    if i + 1 < j {
        assert(follows(state, steps[i + 1], replies[i + 1], steps[i + 2]));
        law_requests_move_forward(state, steps, replies, i + 1, j);
    }
}

/// The call writes to a terminal, now or later.
pub open spec fn writes(call: HostCall) -> bool {
    call is SendBytes || call is SendBytesAfter
}

/// A request that is neither a prompt nor one for keys, and does not write.
pub open spec fn is_quiet(step: RequestStep) -> bool {
    step is Ask ==> {
        &&& !writes(step->Ask_0.call)
        &&& !(step->Ask_0.next is Prompt)
        &&& !(step->Ask_0.next is SendKeys)
    }
}

/// Only prompts and keys write to a terminal: a request of another kind that starts without
/// writing never does.
pub proof fn law_only_prompts_and_keys_write(
    state: AppState,
    steps: Seq<RequestStep>,
    replies: Seq<HostReply>,
    k: int,
)
    requires
        is_run(state, steps, replies),
        is_quiet(steps[0]),
        0 <= k < steps.len(),
    ensures
        is_quiet(steps[k]),
    decreases k,
{
    if k > 0 {
        law_only_prompts_and_keys_write(state, steps, replies, k - 1);
        assert(follows(state, steps[k - 1], replies[k - 1], steps[k]));
    }
}

/// The step waits for `call`.
pub open spec fn waits_for(step: RequestStep, call: HostCall) -> bool {
    step is Ask && step->Ask_0.call == call
}

/// The host has said, before step `k`, that `agent` runs at `at`.
pub open spec fn hosted(
    steps: Seq<RequestStep>,
    replies: Seq<HostReply>,
    k: int,
    at: AgentPlace,
    agent: Agent,
) -> bool {
    exists|j: int|
        0 <= j < k && #[trigger] replies[j] == HostReply::Hosting(Some(true)) && waits_for(
            steps[j],
            HostCall::CheckHosting { at, agent },
        )
}

/// `bytes` is how the host encoded, before step `k`, that the terminal has gained the focus.
pub open spec fn is_focus(replies: Seq<HostReply>, k: int, bytes: Seq<u8>) -> bool {
    exists|j: int|
        0 <= j < k && #[trigger] replies[j] is FocusEncoded && replies[j]->FocusEncoded_0 is Ok
            && replies[j]->FocusEncoded_0->Ok_0@ == bytes
}

/// `bytes` were written to the terminal at `at` before step `k`.
pub open spec fn written(
    steps: Seq<RequestStep>,
    replies: Seq<HostReply>,
    k: int,
    at: AgentPlace,
    bytes: Seq<u8>,
) -> bool {
    exists|j: int|
        0 <= j < k && #[trigger] replies[j] is Sent && replies[j]->Sent_0 is Ok && steps[j] is Ask
            && sends(steps[j]->Ask_0.call, at, bytes)
}

/// The terminal at `at` was told, before step `k`, that it has the focus.
pub open spec fn focused(
    steps: Seq<RequestStep>,
    replies: Seq<HostReply>,
    k: int,
    at: AgentPlace,
) -> bool {
    exists|bytes: Seq<u8>| is_focus(replies, k, bytes) && written(steps, replies, k, at, bytes)
}

/// Before step `k` the host encoded `prompt` for the terminal at `at` as `text`, to be submitted
/// by `enter`.
pub open spec fn encoded(
    steps: Seq<RequestStep>,
    replies: Seq<HostReply>,
    k: int,
    at: AgentPlace,
    prompt: String,
    text: Seq<u8>,
    enter: Seq<u8>,
) -> bool {
    exists|j: int|
        0 <= j < k && #[trigger] replies[j] is Submission && replies[j]->text@ == text
            && replies[j]->enter@ == enter && waits_for(
            steps[j],
            HostCall::EncodeSubmission { at, text: prompt },
        )
}

/// Before step `k` the text of `prompt` was written to the terminal at `at`, and waits for `enter`.
pub open spec fn text_is_in(
    steps: Seq<RequestStep>,
    replies: Seq<HostReply>,
    k: int,
    at: AgentPlace,
    prompt: String,
    enter: Seq<u8>,
) -> bool {
    exists|text: Seq<u8>|
        encoded(steps, replies, k, at, prompt, text, enter) && written(
            steps,
            replies,
            k,
            at,
            text,
        )
}

/// The prompt may be written at `at` by step `k`: the state lets it go to the agent there, the
/// host has said that this agent runs there, and Copilot has been told that it has the focus.
pub open spec fn cleared(
    state: AppState,
    target: Seq<char>,
    steps: Seq<RequestStep>,
    replies: Seq<HostReply>,
    k: int,
    at: AgentPlace,
) -> bool {
    &&& prompt_recipient(state, at, target) is Ok
    &&& hosted(steps, replies, k, at, prompt_recipient(state, at, target)->Ok_0)
    &&& prompt_recipient(state, at, target)->Ok_0 == Agent::GithubCopilot ==> focused(
        steps,
        replies,
        k,
        at,
    )
}

/// What has happened when a prompt is at a stage.
spec fn prompt_history(
    state: AppState,
    params: AgentPromptParams,
    steps: Seq<RequestStep>,
    replies: Seq<HostReply>,
    k: int,
) -> bool {
    let pending = steps[k]->Ask_0;
    let to = params.target@;
    steps[k] is Ask ==> match pending.next {
        Continuation::Prompt(stage) => match stage {
            PromptStage::Resolve { target, text } => {
                &&& target == params.target
                &&& text == params.text
                &&& !writes(pending.call)
            },
            PromptStage::Check { target, text, at, agent } => {
                &&& target == params.target
                &&& text == params.text
                &&& prompt_recipient(state, at, to) == Ok::<Agent, (Seq<char>, Seq<char>)>(agent)
                &&& pending.call == (HostCall::CheckHosting { at, agent })
            },
            PromptStage::EncodeFocus { target, text, at } => {
                &&& text == params.text
                &&& prompt_recipient(state, at, to) == Ok::<Agent, (Seq<char>, Seq<char>)>(
                    Agent::GithubCopilot,
                )
                &&& hosted(steps, replies, k, at, Agent::GithubCopilot)
                &&& !writes(pending.call)
            },
            PromptStage::SendFocus { target, text, at } => {
                &&& text == params.text
                &&& prompt_recipient(state, at, to) == Ok::<Agent, (Seq<char>, Seq<char>)>(
                    Agent::GithubCopilot,
                )
                &&& hosted(steps, replies, k, at, Agent::GithubCopilot)
                &&& pending.call is SendBytes
                &&& pending.call->SendBytes_at == at
                &&& is_focus(replies, k, bytes_in(pending.call->SendBytes_bytes))
            },
            PromptStage::EncodeText { target, at } => {
                &&& cleared(state, to, steps, replies, k, at)
                &&& pending.call == (HostCall::EncodeSubmission { at, text: params.text })
            },
            PromptStage::SendText { target, at, enter } => {
                &&& cleared(state, to, steps, replies, k, at)
                &&& pending.call is SendBytes
                &&& pending.call->SendBytes_at == at
                &&& encoded(
                    steps,
                    replies,
                    k,
                    at,
                    params.text,
                    bytes_in(pending.call->SendBytes_bytes),
                    enter@,
                )
            },
            PromptStage::ScheduleEnter { target, at } => {
                &&& cleared(state, to, steps, replies, k, at)
                &&& pending.call is SendBytesAfter
                &&& pending.call->SendBytesAfter_at == at
                &&& pending.call->delay_ms == AGENT_PROMPT_SUBMIT_DELAY_MS
                &&& text_is_in(
                    steps,
                    replies,
                    k,
                    at,
                    params.text,
                    bytes_in(pending.call->SendBytesAfter_bytes),
                )
            },
            PromptStage::Describe { target } => !writes(pending.call),
        },
        _ => false,
    }
}

proof fn lemma_prompt_history(
    state: AppState,
    id: String,
    params: AgentPromptParams,
    steps: Seq<RequestStep>,
    replies: Seq<HostReply>,
    k: int,
)
    requires
        is_run(state, steps, replies),
        prompt_starts(id, params, steps[0]),
        0 <= k < steps.len(),
    ensures
        prompt_history(state, params, steps, replies, k),
    decreases k,
{
    if k > 0 {
        lemma_prompt_history(state, id, params, steps, replies, k - 1);
        let reply = replies[k - 1];
        let before = steps[k - 1]->Ask_0;
        assert(follows(state, steps[k - 1], reply, steps[k]));
        lemma_still_cleared(state, params.target@, steps, replies, k);
        if fits(before, reply) && steps[k] is Ask {
            match before.next->Prompt_0 {
                PromptStage::SendFocus { at, .. } => {
                    let focus = bytes_in(before.call->SendBytes_bytes);
                    assert(is_focus(replies, k, focus));
                    assert(sends(before.call, at, focus));
                    assert(written(steps, replies, k, at, focus));
                    assert(focused(steps, replies, k, at));
                },
                PromptStage::SendText { at, enter, .. } => {
                    let text = bytes_in(before.call->SendBytes_bytes);
                    assert(sends(before.call, at, text));
                    assert(written(steps, replies, k, at, text));
                    assert(encoded(steps, replies, k, at, params.text, text, enter@));
                    assert(text_is_in(steps, replies, k, at, params.text, enter@));
                },
                _ => {},
            }
        } else {
            law_fitting_replies_move_on(state, before, reply, steps[k]);
        }
    }
}

/// What a prompt writes: nothing before it is cleared for the agent at the place, but the news of
/// the focus for Copilot; then the encoded text; and, once the text is in, the Enter for it after
/// the delay.
pub proof fn law_prompts_write_in_order(
    state: AppState,
    id: String,
    params: AgentPromptParams,
    steps: Seq<RequestStep>,
    replies: Seq<HostReply>,
    k: int,
)
    requires
        is_run(state, steps, replies),
        prompt_starts(id, params, steps[0]),
        0 <= k < steps.len(),
        steps[k] is Ask,
    ensures
        match steps[k]->Ask_0.call {
            HostCall::SendBytes { at, bytes } => {
                ||| {
                    &&& prompt_recipient(state, at, params.target@) == Ok::<
                        Agent,
                        (Seq<char>, Seq<char>),
                    >(Agent::GithubCopilot)
                    &&& hosted(steps, replies, k, at, Agent::GithubCopilot)
                    &&& is_focus(replies, k, bytes_in(bytes))
                }
                ||| {
                    &&& cleared(state, params.target@, steps, replies, k, at)
                    &&& exists|enter: Seq<u8>| #[trigger]
                        encoded(steps, replies, k, at, params.text, bytes_in(bytes), enter)
                }
            },
            HostCall::SendBytesAfter { at, bytes, delay_ms } => {
                &&& cleared(state, params.target@, steps, replies, k, at)
                &&& text_is_in(steps, replies, k, at, params.text, bytes_in(bytes))
                &&& delay_ms == AGENT_PROMPT_SUBMIT_DELAY_MS
            },
            _ => true,
        },
{
    lemma_prompt_history(state, id, params, steps, replies, k);
}

/// A prompt to a blocked agent is refused without anything being written.
pub proof fn law_blocked_agents_get_no_prompt(
    state: AppState,
    id: String,
    params: AgentPromptParams,
    steps: Seq<RequestStep>,
    replies: Seq<HostReply>,
    at: AgentPlace,
    k: int,
)
    requires
        is_run(state, steps, replies),
        prompt_starts(id, params, steps[0]),
        replies.len() > 0,
        replies[0] == HostReply::Resolved(Ok(at)),
        terminal_at(state, at) is Some,
        terminal_at(state, at)->0.state == AgentState::Blocked,
        0 <= k < steps.len(),
    ensures
        replies.len() == 1,
        refused(steps[1], id, blocked(params.target@)),
        steps[k] is Ask ==> !writes(steps[k]->Ask_0.call),
{
    assert(follows(state, steps[0], replies[0], steps[1]));
    if replies.len() > 1 {
        assert(follows(state, steps[1], replies[1], steps[2]));
    }
}

/// What held before step `k - 1` holds before step `k`.
proof fn lemma_still_cleared(
    state: AppState,
    target: Seq<char>,
    steps: Seq<RequestStep>,
    replies: Seq<HostReply>,
    k: int,
)
    ensures
        forall|at: AgentPlace|
            cleared(state, target, steps, replies, k - 1, at) ==> #[trigger] cleared(
                state,
                target,
                steps,
                replies,
                k,
                at,
            ),
        forall|at: AgentPlace, prompt: String, text: Seq<u8>, enter: Seq<u8>|
            encoded(steps, replies, k - 1, at, prompt, text, enter) ==> #[trigger] encoded(
                steps,
                replies,
                k,
                at,
                prompt,
                text,
                enter,
            ),
        forall|at: AgentPlace, prompt: String, enter: Seq<u8>|
            text_is_in(steps, replies, k - 1, at, prompt, enter) ==> #[trigger] text_is_in(
                steps,
                replies,
                k,
                at,
                prompt,
                enter,
            ),
{
    assert forall|at: AgentPlace, prompt: String, enter: Seq<u8>|
        text_is_in(steps, replies, k - 1, at, prompt, enter) implies #[trigger] text_is_in(
        steps,
        replies,
        k,
        at,
        prompt,
        enter,
    ) by {
        let j = k - 1;
        let text = choose|text: Seq<u8>|
            encoded(steps, replies, j, at, prompt, text, enter) && written(
                steps,
                replies,
                j,
                at,
                text,
            );
        assert(encoded(steps, replies, k, at, prompt, text, enter));
        assert(written(steps, replies, k, at, text));
    }
    assert forall|at: AgentPlace|
        cleared(state, target, steps, replies, k - 1, at) implies #[trigger] cleared(
        state,
        target,
        steps,
        replies,
        k,
        at,
    ) by {
        let j = k - 1;
        if focused(steps, replies, j, at) {
            let bytes = choose|bytes: Seq<u8>|
                is_focus(replies, j, bytes) && written(steps, replies, j, at, bytes);
            assert(is_focus(replies, k, bytes) && written(steps, replies, k, at, bytes));
        }
    }
}

/// How a request for keys starts.
pub open spec fn keys_start(id: String, params: AgentSendKeysParams, step: RequestStep) -> bool {
    asks(
        step,
        id,
        HostCall::Resolve { target: params.target },
        Continuation::SendKeys(KeysStage::Resolve { target: params.target, keys: params.keys }),
    )
}

/// `bytes` is how the host encoded, before step `k`, all of `keys` for the terminal at `at`.
pub open spec fn keys_encoded(
    steps: Seq<RequestStep>,
    replies: Seq<HostReply>,
    k: int,
    at: AgentPlace,
    keys: Vec<String>,
    bytes: Seq<u8>,
) -> bool {
    exists|j: int|
        0 <= j < k && #[trigger] replies[j] is KeysEncoded && replies[j]->KeysEncoded_0 is Ok
            && joined(replies[j]->KeysEncoded_0->Ok_0@) == bytes && waits_for(
            steps[j],
            HostCall::EncodeKeys { at, keys },
        )
}

/// What has happened when the sending of keys is at a stage.
spec fn keys_history(
    state: AppState,
    params: AgentSendKeysParams,
    steps: Seq<RequestStep>,
    replies: Seq<HostReply>,
    k: int,
) -> bool {
    let pending = steps[k]->Ask_0;
    let to = params.target@;
    steps[k] is Ask ==> match pending.next {
        Continuation::SendKeys(stage) => match stage {
            KeysStage::Resolve { target, keys } => {
                &&& target == params.target
                &&& keys == params.keys
                &&& pending.call is Resolve
            },
            KeysStage::Check { target, keys, at } => {
                &&& target == params.target
                &&& keys == params.keys
                &&& keys_recipient(state, at, to) is Ok
                &&& pending.call == (HostCall::CheckHosting {
                    at,
                    agent: keys_recipient(state, at, to)->Ok_0,
                })
            },
            KeysStage::Encode { at } => {
                &&& keys_recipient(state, at, to) is Ok
                &&& hosted(steps, replies, k, at, keys_recipient(state, at, to)->Ok_0)
                &&& pending.call == (HostCall::EncodeKeys { at, keys: params.keys })
            },
            KeysStage::Send => {
                &&& pending.call is SendBytes
                &&& keys_recipient(state, pending.call->SendBytes_at, to) is Ok
                &&& hosted(
                    steps,
                    replies,
                    k,
                    pending.call->SendBytes_at,
                    keys_recipient(state, pending.call->SendBytes_at, to)->Ok_0,
                )
                &&& keys_encoded(
                    steps,
                    replies,
                    k,
                    pending.call->SendBytes_at,
                    params.keys,
                    bytes_in(pending.call->SendBytes_bytes),
                )
            },
        },
        _ => false,
    }
}

proof fn lemma_keys_history(
    state: AppState,
    id: String,
    params: AgentSendKeysParams,
    steps: Seq<RequestStep>,
    replies: Seq<HostReply>,
    k: int,
)
    requires
        is_run(state, steps, replies),
        keys_start(id, params, steps[0]),
        0 <= k < steps.len(),
    ensures
        keys_history(state, params, steps, replies, k),
    decreases k,
{
    if k > 0 {
        lemma_keys_history(state, id, params, steps, replies, k - 1);
        let reply = replies[k - 1];
        let before = steps[k - 1]->Ask_0;
        assert(follows(state, steps[k - 1], reply, steps[k]));
        law_fitting_replies_move_on(state, before, reply, steps[k]);
    }
}

/// Keys are written all together, after every one of them was encoded for the agent that the host
/// says runs there.
pub proof fn law_keys_are_encoded_before_they_are_written(
    state: AppState,
    id: String,
    params: AgentSendKeysParams,
    steps: Seq<RequestStep>,
    replies: Seq<HostReply>,
    k: int,
)
    requires
        is_run(state, steps, replies),
        keys_start(id, params, steps[0]),
        0 <= k < steps.len(),
        steps[k] is Ask,
    ensures
        match steps[k]->Ask_0.call {
            HostCall::SendBytes { at, bytes } => {
                &&& keys_recipient(state, at, params.target@) is Ok
                &&& hosted(
                    steps,
                    replies,
                    k,
                    at,
                    keys_recipient(state, at, params.target@)->Ok_0,
                )
                &&& keys_encoded(steps, replies, k, at, params.keys, bytes_in(bytes))
            },
            HostCall::SendBytesAfter { .. } => false,
            _ => true,
        },
{
    lemma_keys_history(state, id, params, steps, replies, k);
}

/// When one of the keys cannot be encoded, the request is refused with that key and none of them
/// is written.
pub proof fn law_one_bad_key_stops_them_all(
    state: AppState,
    id: String,
    params: AgentSendKeysParams,
    steps: Seq<RequestStep>,
    replies: Seq<HostReply>,
    key: String,
    j: int,
    k: int,
)
    requires
        is_run(state, steps, replies),
        keys_start(id, params, steps[0]),
        0 <= j < replies.len(),
        steps[j]->Ask_0.call is EncodeKeys,
        replies[j] == HostReply::KeysEncoded(Err(key)),
        0 <= k < steps.len(),
    ensures
        fails(steps[j + 1], steps[j]->Ask_0.id@, "invalid_key"@, "unsupported key "@ + key@),
        steps[k] is Ask ==> !writes(steps[k]->Ask_0.call),
{
    lemma_keys_history(state, id, params, steps, replies, j);
    lemma_keys_history(state, id, params, steps, replies, k);
    assert(follows(state, steps[j], replies[j], steps[j + 1]));
    if steps[k] is Ask {
        if k < j {
            law_requests_move_forward(state, steps, replies, k, j);
        } else if k > j + 1 {
            assert(follows(state, steps[j + 1], replies[j + 1], steps[j + 2]));
        }
    }
}

} // verus!
