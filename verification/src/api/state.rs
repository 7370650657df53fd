//! What the API handlers read of the server's state.
use crate::detect::{Agent, AgentState};
use crate::queue::model::{first_where, lemma_first_where_is, lemma_first_where_none};
use crate::text::same_text;
use vstd::prelude::*;

verus! {

/// A pane and the terminal that is attached to it.
#[derive(Debug, Clone, Copy, PartialEq, Eq, Structural)]
pub struct PaneSlot {
    pub pane_id: u64,
    pub terminal_id: u64,
}

/// A workspace: its panes.
#[derive(Debug, PartialEq, Eq)]
pub struct Workspace {
    pub panes: Vec<PaneSlot>,
}

/// A terminal, as far as the handlers look at it.
#[derive(Debug, PartialEq, Eq)]
pub struct TerminalState {
    pub id: u64,
    /// The instance that runs in it, as canonical UUID text.
    pub agent_instance_id: Option<String>,
    pub state: AgentState,
    /// The name of `state`.
    pub state_label: String,
    /// The agent that runs in it, if it is one that is known.
    pub effective_known_agent: Option<Agent>,
    pub detected_agent: Option<Agent>,
    pub effective_agent_label: Option<String>,
    /// An agent that the server starts is not up yet.
    pub managed_agent_launch_pending: bool,
    /// Hooks report the agent's whole life, so its screen is not looked at.
    pub full_lifecycle_hook_authority_active: bool,
}

/// The panes and the terminals.
#[derive(Debug, PartialEq, Eq)]
pub struct AppState {
    pub workspaces: Vec<Workspace>,
    pub terminals: Vec<TerminalState>,
}

/// Panes by their id.
pub open spec fn by_pane(pane_id: u64) -> spec_fn(PaneSlot) -> bool {
    |slot: PaneSlot| slot.pane_id == pane_id
}

/// Terminals by their id.
pub open spec fn by_terminal(terminal_id: u64) -> spec_fn(TerminalState) -> bool {
    |terminal: TerminalState| terminal.id == terminal_id
}

/// The terminal that is attached to a pane of a workspace.
pub open spec fn attached_terminal(state: AppState, ws_idx: int, pane_id: u64) -> Option<u64> {
    if 0 <= ws_idx < state.workspaces@.len() {
        let panes = state.workspaces@[ws_idx].panes@;
        match first_where(panes, by_pane(pane_id)) {
            Some(i) => Some(panes[i].terminal_id),
            None => None,
        }
    } else {
        None
    }
}

/// The terminal with an id.
pub open spec fn terminal_with_id(state: AppState, terminal_id: u64) -> Option<TerminalState> {
    match first_where(state.terminals@, by_terminal(terminal_id)) {
        Some(i) => Some(state.terminals@[i]),
        None => None,
    }
}

/// The instance `instance_id` runs in a terminal.
pub open spec fn runs(terminal: TerminalState, instance_id: Seq<char>) -> bool {
    terminal.agent_instance_id is Some && terminal.agent_instance_id->0@ == instance_id
}

/// Some terminal runs the instance `instance_id`.
pub open spec fn is_current_instance(state: AppState, instance_id: Seq<char>) -> bool {
    exists|i: int|
        0 <= i < state.terminals@.len() && runs(#[trigger] state.terminals@[i], instance_id)
}

impl AppState {
    /// The terminal that is attached to a pane of a workspace.
    pub fn terminal_id(&self, ws_idx: usize, pane_id: u64) -> (r: Option<u64>)
        ensures
            r == attached_terminal(*self, ws_idx as int, pane_id),
    {
        if ws_idx >= self.workspaces.len() {
            return None;
        }
        let panes: &Vec<PaneSlot> = &self.workspaces[ws_idx].panes;
        let mut i: usize = 0;
        while i < panes.len()
            invariant
                i <= panes.len(),
                ws_idx < self.workspaces.len(),
                panes@ == self.workspaces@[ws_idx as int].panes@,
                forall|j: int| 0 <= j < i ==> !by_pane(pane_id)(#[trigger] panes@[j]),
            decreases panes.len() - i,
        {
            if panes[i].pane_id == pane_id {
                proof {
                    lemma_first_where_is(panes@, by_pane(pane_id), i as int);
                }
                return Some(panes[i].terminal_id);
            }
            i = i + 1;
        }
        proof {
            lemma_first_where_none(panes@, by_pane(pane_id));
        }
        None
    }

    /// The terminal with an id.
    pub fn terminal(&self, terminal_id: u64) -> (r: Option<&TerminalState>)
        ensures
            match terminal_with_id(*self, terminal_id) {
                Some(terminal) => r is Some && *r->0 == terminal,
                None => r is None,
            },
    {
        let mut i: usize = 0;
        while i < self.terminals.len()
            invariant
                i <= self.terminals.len(),
                forall|j: int|
                    0 <= j < i ==> !by_terminal(terminal_id)(#[trigger] self.terminals@[j]),
            decreases self.terminals.len() - i,
        {
            if self.terminals[i].id == terminal_id {
                proof {
                    lemma_first_where_is(self.terminals@, by_terminal(terminal_id), i as int);
                }
                return Some(&self.terminals[i]);
            }
            i = i + 1;
        }
        proof {
            lemma_first_where_none(self.terminals@, by_terminal(terminal_id));
        }
        None
    }

    /// Whether some terminal runs the instance `instance_id`.
    pub fn runs_instance(&self, instance_id: &str) -> (r: bool)
        ensures
            r == is_current_instance(*self, instance_id@),
    {
        let mut i: usize = 0;
        while i < self.terminals.len()
            invariant
                i <= self.terminals.len(),
                forall|j: int|
                    0 <= j < i ==> !runs(#[trigger] self.terminals@[j], instance_id@),
            decreases self.terminals.len() - i,
        {
            let here: bool = match &self.terminals[i].agent_instance_id {
                Some(current) => same_text(current.as_str(), instance_id),
                None => false,
            };
            if here {
                return true;
            }
            i = i + 1;
        }
        false
    }
}

} // verus!
