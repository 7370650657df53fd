//! Whether an agent's composer holds text that somebody typed and did not send.
use crate::detect::AgentState;
use crate::ident::{is_random_uuid, random_uuid};
use bytes::Bytes;
use vstd::prelude::*;

verus! {

/// The bytes in a `Bytes` value.
pub uninterp spec fn bytes_in(bytes: Bytes) -> Seq<u8>;

/// `bytes::Bytes`, a shared slice of bytes.
#[verifier::external_type_specification]
#[verifier::external_body]
pub struct ExBytes(bytes::Bytes);

/// `bytes::Bytes::is_empty`. Trusted: it says whether there is no byte.
pub assume_specification[ bytes::Bytes::is_empty ](bytes: &bytes::Bytes) -> (r: bool)
    ensures
        r == (bytes_in(*bytes).len() == 0),
;

/// Calls `<bytes::Bytes as From<Vec<u8>>>::from`. Trusted: the bytes stay the same.
#[verifier::external_body]
pub(crate) fn bytes_from_vec(v: Vec<u8>) -> (r: Bytes)
    ensures
        bytes_in(r) == v@,
{
    Bytes::from(v)
}

/// `<bytes::Bytes as Clone>::clone`. Trusted: the copy holds the same bytes.
pub assume_specification[ <bytes::Bytes as Clone>::clone ](bytes: &bytes::Bytes) -> (r: bytes::Bytes)
    ensures
        bytes_in(r) == bytes_in(*bytes),
;

/// Who an input comes from.
#[derive(Debug, PartialEq, Eq)]
pub enum InputProvenance {
    Manual,
    PaneApi,
    Queue(String),
    System,
}

impl Clone for InputProvenance {
    fn clone(&self) -> (r: Self)
        ensures
            r == *self,
    {
        match self {
            InputProvenance::Manual => InputProvenance::Manual,
            InputProvenance::PaneApi => InputProvenance::PaneApi,
            InputProvenance::Queue(queue_id) => InputProvenance::Queue(queue_id.clone()),
            InputProvenance::System => InputProvenance::System,
        }
    }
}

/// What an input is to the composer.
#[derive(Debug, Clone, Copy, PartialEq, Eq, Structural)]
pub enum InputKind {
    Content,
    TopLevelEnter,
    Control,
}

/// Bytes for a terminal.
#[derive(Debug)]
pub struct PtyInput {
    pub bytes: Bytes,
    pub provenance: InputProvenance,
    pub kind: InputKind,
}

impl Clone for PtyInput {
    fn clone(&self) -> (r: Self)
        ensures
            bytes_in(r.bytes) == bytes_in(self.bytes),
            r.provenance == self.provenance,
            r.kind == self.kind,
    {
        PtyInput {
            bytes: self.bytes.clone(),
            provenance: self.provenance.clone(),
            kind: self.kind,
        }
    }
}

impl PtyInput {
    /// Input of a kind from a source.
    pub fn new(bytes: Bytes, provenance: InputProvenance, kind: InputKind) -> (r: Self)
        ensures
            r.bytes == bytes,
            r.provenance == provenance,
            r.kind == kind,
    {
        PtyInput { bytes, provenance, kind }
    }
}

/// Whether the composer is known to be empty.
#[derive(Debug, Clone, Copy, PartialEq, Eq, Structural)]
pub enum ComposerCleanliness {
    Clean,
    Dirty,
    Unknown,
}

/// What is known of the input to a terminal.
///
/// `content_sequence` counts inputs to the composer. `manual_enter_sequence` is the count at the
/// last manual enter, as long as nothing came after it.
#[derive(Debug, PartialEq, Eq)]
pub struct InputTrackerSnapshot {
    pub pty_epoch: String,
    pub cleanliness: ComposerCleanliness,
    pub content_sequence: u64,
    pub manual_enter_sequence: Option<u64>,
    pub manual_enter_reached_working: bool,
}

impl Clone for InputTrackerSnapshot {
    fn clone(&self) -> (r: Self)
        ensures
            r == *self,
    {
        InputTrackerSnapshot {
            pty_epoch: self.pty_epoch.clone(),
            cleanliness: self.cleanliness,
            content_sequence: self.content_sequence,
            manual_enter_sequence: self.manual_enter_sequence,
            manual_enter_reached_working: self.manual_enter_reached_working,
        }
    }
}

/// What an input does to the tracker.
pub enum InputEffect {
    /// Something was typed, pasted or sent into the composer.
    Content,
    /// Somebody pressed enter by hand.
    Enter,
    /// Nothing that concerns the composer.
    Ignored,
}

/// What `input` is to the tracker.
pub open spec fn effect_of(input: PtyInput) -> InputEffect {
    if bytes_in(input.bytes).len() == 0 {
        InputEffect::Ignored
    } else {
        match (input.provenance, input.kind) {
            (InputProvenance::Manual, InputKind::Content) => InputEffect::Content,
            (InputProvenance::Manual, InputKind::TopLevelEnter) => InputEffect::Enter,
            (InputProvenance::PaneApi, InputKind::Content) => InputEffect::Content,
            (InputProvenance::PaneApi, InputKind::TopLevelEnter) => InputEffect::Content,
            _ => InputEffect::Ignored,
        }
    }
}

/// One more than `n`, or the largest `u64`.
pub open spec fn next_count(n: u64) -> u64 {
    if n == u64::MAX {
        u64::MAX
    } else {
        (n + 1) as u64
    }
}

/// The tracker after content.
pub open spec fn after_content(t: InputTrackerSnapshot) -> InputTrackerSnapshot {
    InputTrackerSnapshot {
        pty_epoch: t.pty_epoch,
        cleanliness: ComposerCleanliness::Dirty,
        content_sequence: next_count(t.content_sequence),
        manual_enter_sequence: None,
        manual_enter_reached_working: false,
    }
}

/// The tracker after a manual enter.
pub open spec fn after_enter(t: InputTrackerSnapshot) -> InputTrackerSnapshot {
    InputTrackerSnapshot {
        pty_epoch: t.pty_epoch,
        cleanliness: ComposerCleanliness::Dirty,
        content_sequence: next_count(t.content_sequence),
        manual_enter_sequence: Some(next_count(t.content_sequence)),
        manual_enter_reached_working: false,
    }
}

/// The tracker after an input with the given effect.
pub open spec fn after_input(t: InputTrackerSnapshot, effect: InputEffect) -> InputTrackerSnapshot {
    match effect {
        InputEffect::Content => after_content(t),
        InputEffect::Enter => after_enter(t),
        InputEffect::Ignored => t,
    }
}

/// The tracker after the agent was seen in `state`: the agent going to work and then idle after
/// a manual enter, with nothing typed in between, shows that the composer is empty.
pub open spec fn after_state(t: InputTrackerSnapshot, state: AgentState) -> InputTrackerSnapshot {
    if t.manual_enter_sequence != Some(t.content_sequence) {
        t
    } else if state is Working {
        InputTrackerSnapshot { manual_enter_reached_working: true, ..t }
    } else if t.manual_enter_reached_working && state is Idle {
        InputTrackerSnapshot {
            cleanliness: ComposerCleanliness::Clean,
            manual_enter_sequence: None,
            manual_enter_reached_working: false,
            ..t
        }
    } else {
        t
    }
}

/// The tracker after a resumed session was seen to start without any input.
pub open spec fn after_fresh_resume(t: InputTrackerSnapshot) -> InputTrackerSnapshot {
    if t.content_sequence == 0 {
        InputTrackerSnapshot { cleanliness: ComposerCleanliness::Clean, ..t }
    } else {
        t
    }
}

/// What holds of every tracker: a remembered enter is the last input that was counted, and the
/// composer is dirty until it is answered; the agent has gone to work only after an enter; and a
/// composer that had no input is not dirty.
pub open spec fn is_consistent(t: InputTrackerSnapshot) -> bool {
    &&& t.manual_enter_sequence matches Some(n) ==> n == t.content_sequence && n >= 1
        && t.cleanliness is Dirty
    &&& t.manual_enter_reached_working ==> t.manual_enter_sequence is Some
    &&& t.content_sequence == 0 ==> !(t.cleanliness is Dirty)
}

impl InputTrackerSnapshot {
    /// The tracker of a terminal that was just started.
    pub fn fresh() -> (r: Self)
        ensures
            is_random_uuid(r.pty_epoch@),
            r.cleanliness is Clean,
            r.content_sequence == 0,
            r.manual_enter_sequence is None,
            !r.manual_enter_reached_working,
            is_consistent(r),
    {
        InputTrackerSnapshot {
            pty_epoch: random_uuid(),
            cleanliness: ComposerCleanliness::Clean,
            content_sequence: 0,
            manual_enter_sequence: None,
            manual_enter_reached_working: false,
        }
    }

    /// The tracker of a terminal whose earlier input is not known.
    pub fn cold_restore() -> (r: Self)
        ensures
            is_random_uuid(r.pty_epoch@),
            r.cleanliness is Unknown,
            r.content_sequence == 0,
            r.manual_enter_sequence is None,
            !r.manual_enter_reached_working,
            is_consistent(r),
    {
        InputTrackerSnapshot {
            cleanliness: ComposerCleanliness::Unknown,
            ..InputTrackerSnapshot::fresh()
        }
    }

    /// Takes note of an input that the terminal has accepted.
    pub fn observe_accepted_input(&mut self, input: &PtyInput)
        ensures
            *final(self) == after_input(*old(self), effect_of(*input)),
            is_consistent(*old(self)) ==> is_consistent(*final(self)),
    {
        if input.bytes.is_empty() {
            return ;
        }
        match (&input.provenance, input.kind) {
            (InputProvenance::Manual, InputKind::Content) => {
                self.record_content_byte();
            },
            (InputProvenance::Manual, InputKind::TopLevelEnter) => {
                self.content_sequence = self.content_sequence.saturating_add(1);
                self.cleanliness = ComposerCleanliness::Dirty;
                self.manual_enter_sequence = Some(self.content_sequence);
                self.manual_enter_reached_working = false;
            },
            (InputProvenance::PaneApi, InputKind::Content)
            | (InputProvenance::PaneApi, InputKind::TopLevelEnter) => {
                self.record_content_byte();
            },
            (InputProvenance::Manual, InputKind::Control)
            | (InputProvenance::PaneApi, InputKind::Control)
            | (InputProvenance::Queue(_), _)
            | (InputProvenance::System, _) => {},
        }
    }

    /// Takes note of content for the composer.
    pub fn record_content_byte(&mut self)
        ensures
            *final(self) == after_content(*old(self)),
            is_consistent(*old(self)) ==> is_consistent(*final(self)),
    {
        self.content_sequence = self.content_sequence.saturating_add(1);
        self.cleanliness = ComposerCleanliness::Dirty;
        self.manual_enter_sequence = None;
        self.manual_enter_reached_working = false;
    }

    /// Takes note of what the agent is seen to be doing.
    pub fn observe_agent_state(&mut self, state: AgentState)
        ensures
            *final(self) == after_state(*old(self), state),
            is_consistent(*old(self)) ==> is_consistent(*final(self)),
    {
        let awaited: bool = match self.manual_enter_sequence {
            Some(sequence) => sequence == self.content_sequence,
            None => false,
        };
        if !awaited {
            return ;
        }
        if state == AgentState::Working {
            self.manual_enter_reached_working = true;
            return ;
        }
        if self.manual_enter_reached_working && state == AgentState::Idle {
            self.cleanliness = ComposerCleanliness::Clean;
            self.manual_enter_sequence = None;
            self.manual_enter_reached_working = false;
        }
    }

    /// Takes note that a resumed session started without any input.
    pub fn prove_fresh_resume_with_zero_input(&mut self)
        ensures
            *final(self) == after_fresh_resume(*old(self)),
            is_consistent(*old(self)) ==> is_consistent(*final(self)),
    {
        if self.content_sequence == 0 {
            self.cleanliness = ComposerCleanliness::Clean;
        }
    }
}

} // verus!
