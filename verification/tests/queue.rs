use herdr_queue::api::schema::AgentQueueState;
use herdr_queue::queue::changes::RowChanges;
use herdr_queue::queue::error::{QueueError, StoreError, StoreErrorKind};
use herdr_queue::queue::row::{receipt_from_row, StoredRow};
use herdr_queue::queue::runtime::QueueRuntime;
use herdr_queue::queue::store::QueueStore;

#[test]
fn recipient_scoped_idempotency_and_text_conflict() {
    let mut store = QueueStore::open_in_memory().unwrap();
    let first = store
        .enqueue("instance-a", "event-1", "pointer one")
        .unwrap();
    let duplicate = store
        .enqueue("instance-a", "event-1", "pointer one")
        .unwrap();
    let other = store
        .enqueue("instance-b", "event-1", "pointer one")
        .unwrap();

    assert!(!first.duplicate);
    assert!(duplicate.duplicate);
    assert_eq!(first.receipt.queue_id, duplicate.receipt.queue_id);
    assert_ne!(first.receipt.queue_id, other.receipt.queue_id);
    assert!(matches!(
        store.enqueue("instance-a", "event-1", "different text"),
        Err(QueueError::IdempotencyConflict(receipt)) if receipt.queue_id == first.receipt.queue_id
    ));
}

#[test]
fn fifo_and_one_inflight_are_per_instance() {
    let mut store = QueueStore::open_in_memory().unwrap();
    let a1 = store.enqueue("a", "1", "a1").unwrap().receipt;
    let a2 = store.enqueue("a", "2", "a2").unwrap().receipt;
    let b1 = store.enqueue("b", "1", "b1").unwrap().receipt;

    let (claimed_a, text_a) = store.claim_next("a").unwrap().unwrap();
    let (claimed_b, text_b) = store.claim_next("b").unwrap().unwrap();
    assert_eq!(
        (claimed_a.queue_id.as_str(), text_a.as_str()),
        (a1.queue_id.as_str(), "a1")
    );
    assert_eq!(
        (claimed_b.queue_id.as_str(), text_b.as_str()),
        (b1.queue_id.as_str(), "b1")
    );
    assert!(store.claim_next("a").unwrap().is_none());

    store.mark_submitted(&a1.queue_id, "epoch-a").unwrap();
    assert!(store.claim_next("a").unwrap().is_none());
    store.acknowledge(&a1.queue_id).unwrap();
    assert_eq!(
        store.claim_next("a").unwrap().unwrap().0.queue_id,
        a2.queue_id
    );
}

#[test]
fn cancel_is_guaranteed_only_before_submission() {
    let mut store = QueueStore::open_in_memory().unwrap();
    let queued = store.enqueue("a", "1", "a1").unwrap().receipt;
    assert_eq!(
        store.cancel(&queued.queue_id).unwrap().state,
        AgentQueueState::Canceled
    );

    let attempting = store.enqueue("a", "2", "a2").unwrap().receipt;
    store.claim_next("a").unwrap().unwrap();
    assert!(matches!(
        store.cancel(&attempting.queue_id),
        Err(QueueError::AlreadySubmitted(_))
    ));
}

#[test]
fn interrupted_attempt_is_ambiguous_after_reopen() {
    let (queue_id, stored, log) = {
        let mut store = QueueStore::open(Vec::new(), Vec::new()).unwrap();
        let receipt = store.enqueue("a", "1", "pointer").unwrap().receipt;
        store.claim_next("a").unwrap().unwrap();
        (receipt.queue_id, store.stored_rows(), store.stored_log())
    };

    let store = QueueStore::open(stored, log).unwrap();
    let recovered = store.get(&queue_id).unwrap();
    assert_eq!(recovered.state, AgentQueueState::Ambiguous);
    assert_eq!(recovered.attempts, 1);
    assert_eq!(
        recovered.last_error.as_deref(),
        Some("server_restarted_during_submission")
    );
}

#[test]
fn ten_thousand_rows_across_twenty_instances_are_complete_and_ordered() {
    let mut store = QueueStore::open_in_memory().unwrap();
    for sequence in 0..10_000_u32 {
        let instance = format!("instance-{}", sequence % 20);
        store
            .enqueue(
                &instance,
                &format!("key-{sequence}"),
                &format!("pointer-{sequence}"),
            )
            .unwrap();
    }

    let all = store.list(None, None).unwrap();
    assert_eq!(all.len(), 10_000);
    for instance in 0..20 {
        let rows = store
            .list(Some(&format!("instance-{instance}")), None)
            .unwrap();
        assert_eq!(rows.len(), 500);
        let sequence_numbers = rows
            .iter()
            .map(|row| {
                row.idempotency_key
                    .strip_prefix("key-")
                    .unwrap()
                    .parse::<u32>()
                    .unwrap()
            })
            .collect::<Vec<_>>();
        assert!(sequence_numbers.windows(2).all(|pair| pair[0] < pair[1]));
    }
    assert_eq!(store.event_count().unwrap(), 10_000);
}

#[test]
fn orphaning_preserves_terminal_tombstones() {
    let mut store = QueueStore::open_in_memory().unwrap();
    let missing = store.enqueue("missing", "1", "pointer").unwrap().receipt;
    let kept = store.enqueue("kept", "1", "pointer").unwrap().receipt;
    let known = vec!["kept".to_string()];

    let orphaned = store.orphan_missing_instances(&known).unwrap();
    assert_eq!(orphaned.len(), 1);
    assert_eq!(orphaned[0].queue_id, missing.queue_id);
    assert_eq!(orphaned[0].state, AgentQueueState::Orphaned);
    assert_eq!(
        store.get(&kept.queue_id).unwrap().state,
        AgentQueueState::Queued
    );
    assert_eq!(
        store
            .enqueue("missing", "1", "pointer")
            .unwrap()
            .receipt
            .queue_id,
        missing.queue_id
    );
}

fn enqueue(store: &mut QueueStore, instance: &str, key: &str, id: &str, now: i64) {
    let outcome = store
        .enqueue_at(instance, key, &format!("text of {key}"), id.to_string(), now)
        .unwrap();
    assert!(!outcome.duplicate);
    assert_eq!(outcome.receipt.queue_id, id);
}

#[test]
fn new_row_has_this_receipt() {
    let mut store = QueueStore::open_in_memory().unwrap();
    let receipt = store
        .enqueue_at("a", "1", "hello", "q1".to_string(), 1_500)
        .unwrap()
        .receipt;
    assert_eq!(receipt.version, 1);
    assert_eq!(receipt.queue_id, "q1");
    assert_eq!(receipt.instance_id, "a");
    assert_eq!(receipt.idempotency_key, "1");
    assert_eq!(receipt.state, AgentQueueState::Queued);
    assert_eq!(receipt.attempts, 0);
    assert_eq!(receipt.block_reason, None);
    assert_eq!(receipt.last_error, None);
    assert_eq!(receipt.pty_epoch, None);
    assert_eq!(receipt.created_at, "1970-01-01T00:00:01.5Z");
    assert_eq!(receipt.updated_at, "1970-01-01T00:00:01.5Z");
    assert_eq!(store.get("q1").unwrap(), receipt);
}

#[test]
fn generated_ids_are_random_uuids() {
    let mut store = QueueStore::open_in_memory().unwrap();
    let one = store.enqueue("a", "1", "x").unwrap().receipt.queue_id;
    let two = store.enqueue("a", "2", "x").unwrap().receipt.queue_id;
    assert_ne!(one, two);
    assert_eq!(uuid::Uuid::parse_str(&one).unwrap().get_version_num(), 4);
}

#[test]
fn taken_id_is_refused_by_the_schema() {
    let mut store = QueueStore::open_in_memory().unwrap();
    enqueue(&mut store, "a", "1", "q", 0);
    let error = store
        .enqueue_at("a", "2", "x", "q".to_string(), 0)
        .unwrap_err();
    assert_eq!(
        error,
        QueueError::Store(StoreError {
            kind: StoreErrorKind::Unavailable,
            message:
                "durable queue database error: UNIQUE constraint failed: agent_queue.queue_id"
                    .to_string(),
        })
    );
    assert_eq!(store.event_count().unwrap(), 1);
}

#[test]
fn unknown_rows_are_not_found() {
    let mut store = QueueStore::open_in_memory().unwrap();
    assert_eq!(store.get("nope").unwrap_err(), QueueError::NotFound);
    assert_eq!(store.cancel("nope").unwrap_err(), QueueError::NotFound);
    assert_eq!(store.acknowledge("nope").unwrap_err(), QueueError::NotFound);
    assert_eq!(
        store.set_blocked("nope", "why").unwrap_err(),
        QueueError::NotFound
    );
    assert_eq!(
        store.mark_submitted("nope", "e").unwrap_err(),
        QueueError::NotFound
    );
    assert_eq!(
        store.mark_ambiguous("nope", "e", None).unwrap_err(),
        QueueError::NotFound
    );
    assert!(store.claim_next("nope").unwrap().is_none());
}

#[test]
fn waiting_rows_cannot_be_acknowledged() {
    let mut store = QueueStore::open_in_memory().unwrap();
    enqueue(&mut store, "a", "1", "q", 0);
    assert!(matches!(
        store.acknowledge("q"),
        Err(QueueError::InvalidTransition(receipt)) if receipt.state == AgentQueueState::Queued
    ));
    store.cancel("q").unwrap();
    assert!(matches!(
        store.acknowledge("q"),
        Err(QueueError::InvalidTransition(receipt)) if receipt.state == AgentQueueState::Canceled
    ));
    assert_eq!(store.event_count().unwrap(), 2);
}

#[test]
fn canceling_and_acknowledging_twice_changes_nothing_more() {
    let mut store = QueueStore::open_in_memory().unwrap();
    enqueue(&mut store, "a", "1", "q1", 0);
    let once = store.cancel_at("q1", 10).unwrap();
    let twice = store.cancel_at("q1", 20).unwrap();
    assert_eq!(once, twice);
    assert_eq!(twice.updated_at, "1970-01-01T00:00:00.01Z");

    enqueue(&mut store, "a", "2", "q2", 0);
    store.claim_next_at("a", 5).unwrap().unwrap();
    let once = store.acknowledge_at("q2", 30).unwrap();
    let twice = store.acknowledge_at("q2", 40).unwrap();
    assert_eq!(once, twice);
    assert_eq!(once.state, AgentQueueState::Acknowledged);
    assert_eq!(store.event_count().unwrap(), 5);
}

#[test]
fn blocking_keeps_a_reason_and_repeating_it_is_free() {
    let mut store = QueueStore::open_in_memory().unwrap();
    enqueue(&mut store, "a", "1", "q", 0);
    let blocked = store.set_blocked_at("q", "composer_dirty", 1).unwrap();
    assert_eq!(blocked.state, AgentQueueState::Blocked);
    assert_eq!(blocked.block_reason.as_deref(), Some("composer_dirty"));
    store.set_blocked_at("q", "composer_dirty", 2).unwrap();
    assert_eq!(store.event_count().unwrap(), 2);
    let other = store.set_blocked_at("q", "agent_busy", 3).unwrap();
    assert_eq!(other.block_reason.as_deref(), Some("agent_busy"));
    assert_eq!(store.event_count().unwrap(), 3);

    let (claimed, _) = store.claim_next_at("a", 4).unwrap().unwrap();
    assert_eq!(claimed.state, AgentQueueState::Attempting);
    assert_eq!(claimed.block_reason, None);
    assert_eq!(claimed.attempts, 1);
    assert!(matches!(
        store.set_blocked("q", "late"),
        Err(QueueError::InvalidTransition(_))
    ));
}

#[test]
fn ambiguous_delivery_is_tried_again_before_later_rows() {
    let mut store = QueueStore::open_in_memory().unwrap();
    enqueue(&mut store, "a", "1", "q1", 0);
    enqueue(&mut store, "a", "2", "q2", 0);
    store.claim_next_at("a", 1).unwrap().unwrap();
    let ambiguous = store
        .mark_ambiguous_at("q1", "write_timed_out", Some("epoch-1"), 2)
        .unwrap();
    assert_eq!(ambiguous.last_error.as_deref(), Some("write_timed_out"));
    assert_eq!(ambiguous.pty_epoch.as_deref(), Some("epoch-1"));
    let (again, text) = store.claim_next_at("a", 3).unwrap().unwrap();
    assert_eq!(again.queue_id, "q1");
    assert_eq!(again.attempts, 2);
    assert_eq!(again.last_error, None);
    assert_eq!(again.pty_epoch.as_deref(), Some("epoch-1"));
    assert_eq!(text, "text of 1");
}

#[test]
fn submitting_needs_an_attempt() {
    let mut store = QueueStore::open_in_memory().unwrap();
    enqueue(&mut store, "a", "1", "q", 0);
    assert!(matches!(
        store.mark_submitted("q", "epoch"),
        Err(QueueError::InvalidTransition(_))
    ));
    assert!(matches!(
        store.mark_ambiguous("q", "e", None),
        Err(QueueError::InvalidTransition(_))
    ));
    store.claim_next("a").unwrap().unwrap();
    let submitted = store.mark_submitted("q", "epoch").unwrap();
    assert_eq!(submitted.state, AgentQueueState::Submitted);
    assert_eq!(submitted.pty_epoch.as_deref(), Some("epoch"));
    assert!(matches!(
        store.cancel("q"),
        Err(QueueError::AlreadySubmitted(_))
    ));
}

#[test]
fn canceled_rows_are_skipped() {
    let mut store = QueueStore::open_in_memory().unwrap();
    enqueue(&mut store, "a", "1", "q1", 0);
    enqueue(&mut store, "a", "2", "q2", 0);
    store.cancel("q1").unwrap();
    assert_eq!(store.claim_next("a").unwrap().unwrap().0.queue_id, "q2");
}

#[test]
fn listing_filters_by_instance_and_state() {
    let mut store = QueueStore::open_in_memory().unwrap();
    enqueue(&mut store, "a", "1", "q1", 0);
    enqueue(&mut store, "b", "1", "q2", 0);
    enqueue(&mut store, "a", "2", "q3", 0);
    store.cancel("q1").unwrap();
    let ids = |rows: Vec<herdr_queue::api::schema::AgentQueueReceipt>| {
        rows.into_iter().map(|row| row.queue_id).collect::<Vec<_>>()
    };
    assert_eq!(ids(store.list(None, None).unwrap()), ["q1", "q2", "q3"]);
    assert_eq!(ids(store.list(Some("a"), None).unwrap()), ["q1", "q3"]);
    assert_eq!(
        ids(store.list(Some("a"), Some(AgentQueueState::Queued)).unwrap()),
        ["q3"]
    );
    assert_eq!(
        ids(store.list(None, Some(AgentQueueState::Canceled)).unwrap()),
        ["q1"]
    );
    assert!(store.list(Some("c"), None).unwrap().is_empty());
}

#[test]
fn orphaned_rows_say_why_and_stay() {
    let mut store = QueueStore::open_in_memory().unwrap();
    enqueue(&mut store, "gone", "1", "q1", 0);
    enqueue(&mut store, "gone", "2", "q2", 0);
    store.cancel("q2").unwrap();
    let orphaned = store.orphan_missing_instances(&Vec::new()).unwrap();
    assert_eq!(orphaned.len(), 1);
    assert_eq!(
        orphaned[0].last_error.as_deref(),
        Some("agent_instance_replaced_or_closed")
    );
    assert!(store.orphan_missing_instances(&Vec::new()).unwrap().is_empty());
    assert!(matches!(
        store.cancel("q1"),
        Err(QueueError::InvalidTransition(_))
    ));
    assert_eq!(
        store.get("q2").unwrap().state,
        AgentQueueState::Canceled
    );
}

#[test]
fn every_change_is_logged() {
    let mut store = QueueStore::open_in_memory().unwrap();
    enqueue(&mut store, "a", "1", "q", 7);
    store.claim_next_at("a", 8).unwrap().unwrap();
    store.acknowledge_at("q", 9).unwrap();
    let log: Vec<_> = store
        .events()
        .iter()
        .map(|event| {
            let state = AgentQueueState::parse(&event.state).unwrap();
            (event.queue_id.as_str(), state, event.created_at_ms)
        })
        .collect();
    assert_eq!(
        log,
        [
            ("q", AgentQueueState::Queued, 7),
            ("q", AgentQueueState::Attempting, 8),
            ("q", AgentQueueState::Acknowledged, 9),
        ]
    );
    let row = store.row("q").unwrap();
    assert_eq!(row.text, "text of 1");
    assert_eq!(row.updated_at_ms, 9);
    assert!(store.row("other").is_none());
}

fn stored(state: &str, attempts: i64) -> StoredRow {
    StoredRow {
        queue_id: "q".to_string(),
        instance_id: "a".to_string(),
        idempotency_key: "1".to_string(),
        text: "hello".to_string(),
        state: state.to_string(),
        attempts,
        block_reason: None,
        last_error: Some("e".to_string()),
        pty_epoch: None,
        created_at_ms: 0,
        updated_at_ms: 1_000,
    }
}

#[test]
fn stored_rows_come_back_as_they_were() {
    let mut store = QueueStore::load(vec![stored("submitted", 3)], Vec::new());
    assert_eq!(store.stored_rows(), [stored("submitted", 3)]);
    assert_eq!(store.event_count().unwrap(), 0);
    let receipt = store.acknowledge("q").unwrap();
    assert_eq!(receipt.attempts, 3);
    assert_eq!(store.stored_rows()[0].state, "acknowledged");
    assert_eq!(
        store.row("q").unwrap().known_state(),
        Some(AgentQueueState::Acknowledged)
    );
}

#[test]
fn log_is_counted_on_after_a_restart() {
    let mut store = QueueStore::open_in_memory().unwrap();
    enqueue(&mut store, "a", "1", "q1", 0);
    enqueue(&mut store, "b", "1", "q2", 0);
    store.claim_next_at("b", 1).unwrap().unwrap();
    assert_eq!(store.event_count().unwrap(), 3);
    let mut again = QueueStore::open(store.stored_rows(), store.stored_log()).unwrap();
    assert_eq!(again.event_count().unwrap(), 4);
    assert_eq!(again.events()[..3], store.events()[..]);
    assert_eq!(again.events()[3].state, "ambiguous");
    again.cancel("q1").unwrap();
    assert_eq!(again.event_count().unwrap(), 5);
}

fn unreadable() -> QueueStore {
    let mut lost = stored("lost", 0);
    lost.queue_id = "q2".to_string();
    lost.idempotency_key = "2".to_string();
    QueueStore::open(vec![stored("queued", 0), lost], Vec::new()).unwrap()
}

#[test]
fn unknown_stored_state_is_an_error_where_it_is_read() {
    let lost = StoreError {
        kind: StoreErrorKind::Unavailable,
        message: "durable queue database error: Conversion error from type Text at index: 3, invalid queue state lost".to_string(),
    };
    assert_eq!(receipt_from_row(&stored("lost", 0)).unwrap_err(), lost);
    assert_eq!(stored("lost", 0).known_state(), None);
    assert_eq!(lost.text(), lost.message);

    let mut store = unreadable();
    let lost = QueueError::Store(lost);
    assert_eq!(store.get("q2").unwrap_err(), lost);
    assert_eq!(store.cancel("q2").unwrap_err(), lost);
    assert_eq!(store.acknowledge("q2").unwrap_err(), lost);
    assert_eq!(store.set_blocked("q2", "why").unwrap_err(), lost);
    assert_eq!(store.mark_submitted("q2", "e").unwrap_err(), lost);
    assert_eq!(store.mark_ambiguous("q2", "e", None).unwrap_err(), lost);
    assert_eq!(store.enqueue("a", "2", "hello").unwrap_err(), lost);
    assert_eq!(store.list(None, None).unwrap_err(), lost);
    assert_eq!(store.list(Some("a"), None).unwrap_err(), lost);
    assert_eq!(store.orphan_missing_instances(&Vec::new()).unwrap_err(), lost);
    assert_eq!(store.event_count().unwrap(), 0);
    assert_eq!(store.stored_rows(), unreadable().stored_rows());
}

#[test]
fn unknown_stored_state_is_in_the_way_of_nothing_else() {
    let mut store = unreadable();
    assert_eq!(store.get("q").unwrap().state, AgentQueueState::Queued);
    assert!(store.list(Some("b"), None).unwrap().is_empty());
    assert_eq!(
        store.list(None, Some(AgentQueueState::Queued)).unwrap().len(),
        1
    );
    enqueue(&mut store, "a", "3", "q3", 0);
    let (claimed, _) = store.claim_next("a").unwrap().unwrap();
    assert_eq!(claimed.queue_id, "q");
    store.acknowledge("q").unwrap();
    assert_eq!(store.claim_next("a").unwrap().unwrap().0.queue_id, "q3");
    assert_eq!(store.stored_rows()[1].state, "lost");
}

#[test]
fn changes_are_what_has_to_be_written() {
    let mut store = QueueStore::load(vec![stored("queued", 0)], Vec::new());
    let none = store.changes_since(1, 0);
    assert!(none.inserted.is_empty() && none.updated.is_empty() && none.logged.is_empty());

    enqueue(&mut store, "b", "1", "q2", 5);
    let new = store.changes_since(1, 0);
    assert_eq!(new.inserted, store.stored_rows()[1..]);
    assert!(new.updated.is_empty());
    assert_eq!(new.logged, store.events()[..]);

    store.claim_next_at("a", 6).unwrap().unwrap();
    let claimed = store.changes_since(2, 1);
    assert!(claimed.inserted.is_empty());
    assert_eq!(claimed.updated, store.stored_rows()[..1]);
    assert_eq!(claimed.updated[0].state, "attempting");
    assert_eq!(claimed.logged, store.events()[1..]);

    let both = store.changes_since(1, 0);
    assert_eq!(both.inserted.len(), 1);
    assert_eq!(both.updated.len(), 1);
    assert_eq!(both.logged.len(), 2);
    let past = store.changes_since(9, 9);
    assert!(past.inserted.is_empty() && past.updated.is_empty() && past.logged.is_empty());
}

#[test]
fn shown_attempts_are_capped() {
    assert_eq!(
        receipt_from_row(&stored("queued", i64::MAX)).unwrap().attempts,
        u32::MAX
    );
    assert_eq!(
        receipt_from_row(&stored("queued", -1)).unwrap().attempts,
        u32::MAX
    );
    assert_eq!(receipt_from_row(&stored("queued", 5)).unwrap().attempts, 5);
}

#[test]
fn attempts_past_the_limit_are_refused() {
    let mut store = QueueStore::load(vec![stored("queued", i64::MAX)], Vec::new());
    let error = store.claim_next("a").unwrap_err();
    assert!(matches!(
        error,
        QueueError::Store(StoreError { kind: StoreErrorKind::Unavailable, .. })
    ));
    assert_eq!(store.get("q").unwrap().state, AgentQueueState::Queued);
}

#[test]
fn second_delivery_in_flight_is_refused_by_the_schema() {
    let mut second = stored("ambiguous", 1);
    second.queue_id = "q2".to_string();
    second.idempotency_key = "2".to_string();
    let mut store = QueueStore::load(vec![stored("queued", 0), second], Vec::new());
    let error = store.claim_next("a").unwrap_err();
    assert_eq!(
        error,
        QueueError::Store(StoreError {
            kind: StoreErrorKind::Unavailable,
            message:
                "durable queue database error: UNIQUE constraint failed: agent_queue.instance_id"
                    .to_string(),
        })
    );
}

#[test]
fn runtime_hands_out_its_store_or_its_error() {
    let mut memory = QueueRuntime::in_memory();
    memory.store_mut().unwrap().enqueue("a", "1", "x").unwrap();
    assert_eq!(memory.store_mut().unwrap().event_count().unwrap(), 1);

    let error = StoreError {
        kind: StoreErrorKind::Busy,
        message: "locked".to_string(),
    };
    let mut none = QueueRuntime::open(Err(error.clone()));
    assert_eq!(none.store_mut().unwrap_err(), error);
    let mut some = QueueRuntime::open(QueueStore::open_in_memory());
    assert!(some.store_mut().is_ok());
}

#[test]
fn states_have_these_names() {
    let names = [
        (AgentQueueState::Queued, "queued", false),
        (AgentQueueState::Blocked, "blocked", false),
        (AgentQueueState::Attempting, "attempting", false),
        (AgentQueueState::Submitted, "submitted", false),
        (AgentQueueState::Ambiguous, "ambiguous", false),
        (AgentQueueState::Acknowledged, "acknowledged", true),
        (AgentQueueState::Canceled, "canceled", true),
        (AgentQueueState::Orphaned, "orphaned", true),
    ];
    for (state, name, terminal) in names {
        assert_eq!(state.as_str(), name);
        assert_eq!(AgentQueueState::parse(name), Some(state));
        assert_eq!(state.is_terminal(), terminal);
    }
    assert_eq!(AgentQueueState::parse("Queued"), None);
}

#[test]
fn store_errors_have_these_codes() {
    assert_eq!(StoreErrorKind::Busy.code(), "store_busy");
    assert_eq!(StoreErrorKind::Full.code(), "store_full");
    assert_eq!(StoreErrorKind::Corrupt.code(), "store_corrupt");
    assert_eq!(StoreErrorKind::Unavailable.code(), "store_unavailable");
}

fn keep(mut whole: Vec<StoredRow>, changes: RowChanges) -> Vec<StoredRow> {
    for row in changes.updated {
        let old = whole
            .iter_mut()
            .find(|old| old.queue_id == row.queue_id)
            .unwrap();
        *old = row;
    }
    whole.extend(changes.inserted);
    whole
}

#[test]
fn operations_on_their_rows_alone_do_the_same_as_on_all() {
    let full = || {
        let mut store = QueueStore::open_in_memory().unwrap();
        enqueue(&mut store, "a", "1", "q1", 0);
        enqueue(&mut store, "b", "1", "q2", 0);
        enqueue(&mut store, "a", "2", "q3", 0);
        enqueue(&mut store, "b", "2", "q4", 0);
        store.cancel_at("q1", 1).unwrap();
        store
    };
    let rows_where = |wanted: fn(&StoredRow) -> bool| {
        let rows = full().stored_rows().into_iter().filter(wanted).collect();
        QueueStore::load(rows, Vec::new())
    };

    let mut whole = full();
    let mut part = rows_where(|row| row.instance_id == "a");
    let loaded = part.stored_rows().len();
    assert_eq!(
        part.claim_next_at("a", 5).unwrap(),
        whole.claim_next_at("a", 5).unwrap()
    );
    assert_eq!(
        keep(full().stored_rows(), part.changes_since(loaded, 0)),
        whole.stored_rows()
    );

    let mut whole = full();
    let mut part = rows_where(|row| row.instance_id == "b");
    let loaded = part.stored_rows().len();
    assert_eq!(
        part.enqueue_at("b", "3", "x", "q5".to_string(), 6).unwrap(),
        whole.enqueue_at("b", "3", "x", "q5".to_string(), 6).unwrap()
    );
    assert_eq!(
        keep(full().stored_rows(), part.changes_since(loaded, 0)),
        whole.stored_rows()
    );

    let mut whole = full();
    let mut part = rows_where(|row| row.queue_id == "q4");
    let loaded = part.stored_rows().len();
    assert_eq!(
        part.set_blocked_at("q4", "busy", 7).unwrap(),
        whole.set_blocked_at("q4", "busy", 7).unwrap()
    );
    assert_eq!(
        keep(full().stored_rows(), part.changes_since(loaded, 0)),
        whole.stored_rows()
    );
    assert_eq!(part.events().len(), 1);

    let known = vec!["a".to_string()];
    let mut whole = full();
    let orphaned = whole.orphan_missing_instances(&known).unwrap();
    assert_eq!(orphaned.len(), 2);
    let mut part = rows_where(|row| row.queue_id == "q2");
    let alone = part.orphan_missing_instances(&known).unwrap();
    assert_eq!(alone.len(), 1);
    assert_eq!(alone[0].queue_id, orphaned[0].queue_id);
    assert_eq!(alone[0].state, AgentQueueState::Orphaned);
}
