use bytes::Bytes;
use herdr_queue::detect::AgentState;
use herdr_queue::pty::input::{
    ComposerCleanliness, InputKind, InputProvenance, InputTrackerSnapshot, PtyInput,
};

fn input(provenance: InputProvenance, kind: InputKind) -> PtyInput {
    PtyInput::new(Bytes::from_static(b"x"), provenance, kind)
}

#[test]
fn manual_content_dirties_and_only_enter_working_idle_clears() {
    let mut tracker = InputTrackerSnapshot::fresh();
    tracker.observe_accepted_input(&input(InputProvenance::Manual, InputKind::Content));
    assert_eq!(tracker.cleanliness, ComposerCleanliness::Dirty);
    tracker.observe_agent_state(AgentState::Working);
    tracker.observe_agent_state(AgentState::Idle);
    assert_eq!(tracker.cleanliness, ComposerCleanliness::Dirty);

    tracker.observe_accepted_input(&input(InputProvenance::Manual, InputKind::TopLevelEnter));
    tracker.observe_agent_state(AgentState::Idle);
    assert_eq!(tracker.cleanliness, ComposerCleanliness::Dirty);
    tracker.observe_agent_state(AgentState::Working);
    tracker.observe_agent_state(AgentState::Idle);
    assert_eq!(tracker.cleanliness, ComposerCleanliness::Clean);
}

#[test]
fn later_manual_content_invalidates_enter_cycle() {
    let mut tracker = InputTrackerSnapshot::fresh();
    tracker.observe_accepted_input(&input(InputProvenance::Manual, InputKind::TopLevelEnter));
    tracker.observe_agent_state(AgentState::Working);
    tracker.observe_accepted_input(&input(InputProvenance::Manual, InputKind::Content));
    tracker.observe_agent_state(AgentState::Idle);
    assert_eq!(tracker.cleanliness, ComposerCleanliness::Dirty);
}

#[test]
fn queue_and_system_input_never_dirty_composer() {
    let mut tracker = InputTrackerSnapshot::fresh();
    tracker.observe_accepted_input(&input(
        InputProvenance::Queue("queue-id".into()),
        InputKind::Content,
    ));
    tracker.observe_accepted_input(&input(InputProvenance::System, InputKind::Content));
    assert_eq!(tracker.cleanliness, ComposerCleanliness::Clean);
    assert_eq!(tracker.content_sequence, 0);
}

#[test]
fn cold_restore_requires_zero_input_resume_proof() {
    let mut clean = InputTrackerSnapshot::cold_restore();
    clean.prove_fresh_resume_with_zero_input();
    assert_eq!(clean.cleanliness, ComposerCleanliness::Clean);

    let mut dirty = InputTrackerSnapshot::cold_restore();
    dirty.observe_accepted_input(&input(InputProvenance::PaneApi, InputKind::Content));
    dirty.prove_fresh_resume_with_zero_input();
    assert_eq!(dirty.cleanliness, ComposerCleanliness::Dirty);
}

#[test]
fn fresh_tracker_is_clean_and_has_a_random_epoch() {
    let one = InputTrackerSnapshot::fresh();
    let two = InputTrackerSnapshot::fresh();
    assert_eq!(one.cleanliness, ComposerCleanliness::Clean);
    assert_eq!(one.content_sequence, 0);
    assert_eq!(one.manual_enter_sequence, None);
    assert!(!one.manual_enter_reached_working);
    assert_ne!(one.pty_epoch, two.pty_epoch);
    let epoch = uuid::Uuid::parse_str(&one.pty_epoch).unwrap();
    assert_eq!(epoch.get_version_num(), 4);
    assert_eq!(epoch.to_string(), one.pty_epoch);
}

#[test]
fn cold_restore_starts_unknown() {
    let tracker = InputTrackerSnapshot::cold_restore();
    assert_eq!(tracker.cleanliness, ComposerCleanliness::Unknown);
    assert_eq!(tracker.content_sequence, 0);
}

#[test]
fn empty_and_control_input_changes_nothing() {
    let mut tracker = InputTrackerSnapshot::fresh();
    tracker.observe_accepted_input(&PtyInput::new(
        Bytes::new(),
        InputProvenance::Manual,
        InputKind::Content,
    ));
    tracker.observe_accepted_input(&input(InputProvenance::Manual, InputKind::Control));
    tracker.observe_accepted_input(&input(InputProvenance::PaneApi, InputKind::Control));
    assert_eq!(tracker.cleanliness, ComposerCleanliness::Clean);
    assert_eq!(tracker.content_sequence, 0);
}

#[test]
fn enter_from_the_pane_api_is_content() {
    let mut tracker = InputTrackerSnapshot::fresh();
    tracker.observe_accepted_input(&input(InputProvenance::PaneApi, InputKind::TopLevelEnter));
    assert_eq!(tracker.manual_enter_sequence, None);
    tracker.observe_agent_state(AgentState::Working);
    tracker.observe_agent_state(AgentState::Idle);
    assert_eq!(tracker.cleanliness, ComposerCleanliness::Dirty);
    assert_eq!(tracker.content_sequence, 1);
}

#[test]
fn enter_is_counted_and_remembered() {
    let mut tracker = InputTrackerSnapshot::fresh();
    tracker.record_content_byte();
    tracker.observe_accepted_input(&input(InputProvenance::Manual, InputKind::TopLevelEnter));
    assert_eq!(tracker.content_sequence, 2);
    assert_eq!(tracker.manual_enter_sequence, Some(2));
    tracker.observe_agent_state(AgentState::Blocked);
    assert!(!tracker.manual_enter_reached_working);
    tracker.observe_agent_state(AgentState::Working);
    assert!(tracker.manual_enter_reached_working);
}

#[test]
fn content_count_stops_at_its_limit() {
    let mut tracker = InputTrackerSnapshot::fresh();
    tracker.content_sequence = u64::MAX;
    tracker.record_content_byte();
    assert_eq!(tracker.content_sequence, u64::MAX);
    assert_eq!(tracker.cleanliness, ComposerCleanliness::Dirty);
}

#[test]
fn cloned_input_holds_the_same_bytes() {
    let one = PtyInput::new(
        Bytes::from_static(b"abc"),
        InputProvenance::Queue("q".into()),
        InputKind::Content,
    );
    let two = one.clone();
    assert_eq!(two.bytes, Bytes::from_static(b"abc"));
    assert_eq!(two.provenance, one.provenance);
    assert_eq!(two.kind, one.kind);
}

#[test]
fn remembered_enter_is_the_last_input_and_dirty() {
    let mut tracker = InputTrackerSnapshot::fresh();
    let steps = [
        (InputProvenance::Manual, InputKind::Content),
        (InputProvenance::Manual, InputKind::TopLevelEnter),
        (InputProvenance::PaneApi, InputKind::Content),
        (InputProvenance::Manual, InputKind::TopLevelEnter),
        (InputProvenance::System, InputKind::Content),
    ];
    for (provenance, kind) in steps {
        tracker.observe_accepted_input(&input(provenance, kind));
        tracker.observe_agent_state(AgentState::Working);
        if let Some(enter) = tracker.manual_enter_sequence {
            assert_eq!(enter, tracker.content_sequence);
            assert!(enter >= 1);
            assert_eq!(tracker.cleanliness, ComposerCleanliness::Dirty);
        } else {
            assert!(!tracker.manual_enter_reached_working);
        }
    }
    assert_eq!(tracker.manual_enter_sequence, Some(4));
}
