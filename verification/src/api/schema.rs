//! The records of the queue API.
use crate::text::same_text;
use vstd::prelude::*;

verus! {

/// Where a queue row stands.
#[derive(Debug, Clone, Copy, PartialEq, Eq, Structural)]
pub enum AgentQueueState {
    Queued,
    Blocked,
    Attempting,
    Submitted,
    Ambiguous,
    Acknowledged,
    Canceled,
    Orphaned,
}

/// The stored name of a state.
pub open spec fn state_name(state: AgentQueueState) -> Seq<char> {
    match state {
        AgentQueueState::Queued => "queued"@,
        AgentQueueState::Blocked => "blocked"@,
        AgentQueueState::Attempting => "attempting"@,
        AgentQueueState::Submitted => "submitted"@,
        AgentQueueState::Ambiguous => "ambiguous"@,
        AgentQueueState::Acknowledged => "acknowledged"@,
        AgentQueueState::Canceled => "canceled"@,
        AgentQueueState::Orphaned => "orphaned"@,
    }
}

/// A state that a row never leaves.
pub open spec fn is_terminal_state(state: AgentQueueState) -> bool {
    state is Acknowledged || state is Canceled || state is Orphaned
}

impl AgentQueueState {
    /// The stored name of the state.
    pub fn as_str(self) -> (r: &'static str)
        ensures
            r@ == state_name(self),
    {
        match self {
            AgentQueueState::Queued => "queued",
            AgentQueueState::Blocked => "blocked",
            AgentQueueState::Attempting => "attempting",
            AgentQueueState::Submitted => "submitted",
            AgentQueueState::Ambiguous => "ambiguous",
            AgentQueueState::Acknowledged => "acknowledged",
            AgentQueueState::Canceled => "canceled",
            AgentQueueState::Orphaned => "orphaned",
        }
    }

    /// The state with the stored name `text`.
    pub fn parse(text: &str) -> (r: Option<Self>)
        ensures
            match r {
                Some(state) => text@ == state_name(state),
                None => forall|state: AgentQueueState| text@ != #[trigger] state_name(state),
            },
    {
        if same_text(text, "queued") {
            Some(AgentQueueState::Queued)
        } else if same_text(text, "blocked") {
            Some(AgentQueueState::Blocked)
        } else if same_text(text, "attempting") {
            Some(AgentQueueState::Attempting)
        } else if same_text(text, "submitted") {
            Some(AgentQueueState::Submitted)
        } else if same_text(text, "ambiguous") {
            Some(AgentQueueState::Ambiguous)
        } else if same_text(text, "acknowledged") {
            Some(AgentQueueState::Acknowledged)
        } else if same_text(text, "canceled") {
            Some(AgentQueueState::Canceled)
        } else if same_text(text, "orphaned") {
            Some(AgentQueueState::Orphaned)
        } else {
            None
        }
    }

    /// Whether a row in this state stays in it.
    pub fn is_terminal(self) -> (r: bool)
        ensures
            r == is_terminal_state(self),
    {
        matches!(
            self,
            AgentQueueState::Acknowledged | AgentQueueState::Canceled | AgentQueueState::Orphaned
        )
    }
}

/// No two states share a stored name, so a stored name read back gives the state that was
/// written.
pub proof fn law_state_names_differ(a: AgentQueueState, b: AgentQueueState)
    ensures
        state_name(a) == state_name(b) ==> a == b,
{
    reveal_strlit("queued");
    reveal_strlit("blocked");
    reveal_strlit("attempting");
    reveal_strlit("submitted");
    reveal_strlit("ambiguous");
    reveal_strlit("acknowledged");
    reveal_strlit("canceled");
    reveal_strlit("orphaned");
    let (x, y) = (state_name(a), state_name(b));
    if x == y {
        assert(x.len() == y.len());
        assert(x[0] == y[0] && x[1] == y[1]);
    }
}

/// What the API tells of a queue row.
#[derive(Debug, PartialEq, Eq)]
pub struct AgentQueueReceipt {
    pub version: u32,
    pub queue_id: String,
    pub instance_id: String,
    pub idempotency_key: String,
    pub state: AgentQueueState,
    pub attempts: u32,
    pub block_reason: Option<String>,
    pub last_error: Option<String>,
    pub pty_epoch: Option<String>,
    pub created_at: String,
    pub updated_at: String,
}

/// The contents of a receipt.
#[verifier::ext_equal]
pub struct ReceiptModel {
    pub version: u32,
    pub queue_id: Seq<char>,
    pub instance_id: Seq<char>,
    pub idempotency_key: Seq<char>,
    pub state: AgentQueueState,
    pub attempts: u32,
    pub block_reason: Option<Seq<char>>,
    pub last_error: Option<Seq<char>>,
    pub pty_epoch: Option<Seq<char>>,
    pub created_at: Seq<char>,
    pub updated_at: Seq<char>,
}

impl View for AgentQueueReceipt {
    type V = ReceiptModel;

    open spec fn view(&self) -> ReceiptModel {
        ReceiptModel {
            version: self.version,
            queue_id: self.queue_id@,
            instance_id: self.instance_id@,
            idempotency_key: self.idempotency_key@,
            state: self.state,
            attempts: self.attempts,
            block_reason: self.block_reason.deep_view(),
            last_error: self.last_error.deep_view(),
            pty_epoch: self.pty_epoch.deep_view(),
            created_at: self.created_at@,
            updated_at: self.updated_at@,
        }
    }
}

impl DeepView for AgentQueueReceipt {
    type V = ReceiptModel;

    open spec fn deep_view(&self) -> ReceiptModel {
        self@
    }
}

pub(crate) fn clone_option(o: &Option<String>) -> (r: Option<String>)
    ensures
        r == *o,
{
    match o {
        Some(s) => Some(s.clone()),
        None => None,
    }
}

impl Clone for AgentQueueReceipt {
    fn clone(&self) -> (r: Self)
        ensures
            r == *self,
    {
        AgentQueueReceipt {
            version: self.version,
            queue_id: self.queue_id.clone(),
            instance_id: self.instance_id.clone(),
            idempotency_key: self.idempotency_key.clone(),
            state: self.state,
            attempts: self.attempts,
            block_reason: clone_option(&self.block_reason),
            last_error: clone_option(&self.last_error),
            pty_epoch: clone_option(&self.pty_epoch),
            created_at: self.created_at.clone(),
            updated_at: self.updated_at.clone(),
        }
    }
}

} // verus!
