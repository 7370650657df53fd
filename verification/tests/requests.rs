use herdr_queue::api::app::{encode_queue_error, encode_queue_store_error, App};
use herdr_queue::api::response::{
    AgentEnqueueParams, AgentQueueAckParams, AgentQueueCancelParams, AgentQueueGetParams,
    AgentQueueListParams, ApiOutcome, ApiResponse, ErrorBody, EventData, EventKind, ResponseResult,
};
use herdr_queue::api::schema::{AgentQueueReceipt, AgentQueueState};
use herdr_queue::api::state::{AppState, TerminalState};
use herdr_queue::detect::AgentState;
use herdr_queue::queue::error::{QueueError, StoreError, StoreErrorKind};
use herdr_queue::queue::runtime::QueueRuntime;
use herdr_queue::queue::store::QueueStore;

const INSTANCE: &str = "67e55044-10b1-426f-9247-bb680e5fe0c8";
const OTHER: &str = "00000000-0000-4000-8000-000000000001";

fn app() -> App {
    App {
        state: AppState {
            workspaces: Vec::new(),
            terminals: vec![
                TerminalState {
                    id: 1,
                    agent_instance_id: None,
                    state: AgentState::Unknown,
                    state_label: "unknown".to_string(),
                    effective_known_agent: None,
                    detected_agent: None,
                    effective_agent_label: None,
                    managed_agent_launch_pending: false,
                    full_lifecycle_hook_authority_active: false,
                },
                TerminalState {
                    id: 2,
                    agent_instance_id: Some(INSTANCE.to_string()),
                    state: AgentState::Idle,
                    state_label: "idle".to_string(),
                    effective_known_agent: None,
                    detected_agent: None,
                    effective_agent_label: None,
                    managed_agent_launch_pending: false,
                    full_lifecycle_hook_authority_active: false,
                },
            ],
        },
        agent_queue: QueueRuntime::in_memory(),
        events: Vec::new(),
    }
}

fn params(key: &str, text: &str) -> AgentEnqueueParams {
    AgentEnqueueParams {
        version: 1,
        instance_id: INSTANCE.to_string(),
        idempotency_key: key.to_string(),
        text: text.to_string(),
    }
}

fn queue(response: ApiResponse) -> AgentQueueReceipt {
    match response.outcome {
        ApiOutcome::Success(ResponseResult::AgentQueueReceipt { queue }) => queue,
        other => panic!("expected a receipt: {other:?}"),
    }
}

fn error(response: ApiResponse) -> ErrorBody {
    match response.outcome {
        ApiOutcome::Error(body) => body,
        other => panic!("expected an error: {other:?}"),
    }
}

fn told(app: &App) -> Vec<(String, AgentQueueState)> {
    app.events
        .iter()
        .map(|event| {
            assert_eq!(event.event, EventKind::AgentQueueUpdated);
            let EventData::AgentQueueUpdated { queue } = &event.data;
            (queue.queue_id.clone(), queue.state)
        })
        .collect()
}

#[test]
fn enqueue_is_answered_with_a_receipt_and_told_once() {
    let mut app = app();
    let response = app.handle_agent_enqueue("req".into(), params("k", "hello"));
    assert_eq!(response.id, "req");
    let first = queue(response);
    assert_eq!(first.instance_id, INSTANCE);
    assert_eq!(first.state, AgentQueueState::Queued);
    assert_eq!(
        told(&app),
        [(first.queue_id.clone(), AgentQueueState::Queued)]
    );

    let again = queue(app.handle_agent_enqueue("req2".into(), params("k", "hello")));
    assert_eq!(again, first);
    assert_eq!(app.events.len(), 1);

    let conflict = error(app.handle_agent_enqueue("req3".into(), params("k", "other")));
    assert_eq!(conflict.code, "idempotency_conflict");
    assert_eq!(
        conflict.message,
        format!(
            "idempotency key already belongs to queue {} with different text",
            first.queue_id
        )
    );
    assert_eq!(app.events.len(), 1);
}

#[test]
fn enqueue_takes_every_spelling_of_the_instance() {
    let mut app = app();
    let first = queue(app.handle_agent_enqueue("1".into(), params("k", "hello")));
    for spelling in [
        "67E55044-10B1-426F-9247-BB680E5FE0C8",
        "67e5504410b1426f9247bb680e5fe0c8",
        "{67e55044-10b1-426f-9247-bb680e5fe0c8}",
        "urn:uuid:67e55044-10b1-426f-9247-bb680e5fe0c8",
    ] {
        let mut again = params("k", "hello");
        again.instance_id = spelling.to_string();
        assert_eq!(queue(app.handle_agent_enqueue("2".into(), again)), first);
    }
    assert_eq!(app.events.len(), 1);
}

#[test]
fn enqueue_checks_its_parameters_in_order() {
    let mut app = app();
    let mut all_wrong = params("", "");
    all_wrong.version = 2;
    all_wrong.instance_id = "nope".to_string();
    let body = error(app.handle_agent_enqueue("req".into(), all_wrong));
    assert_eq!(body.code, "invalid_request");
    assert_eq!(body.message, "agent enqueue version must be 1");

    let mut bad = params("", "");
    bad.instance_id = "nope".to_string();
    let body = error(app.handle_agent_enqueue("req".into(), bad));
    assert_eq!(body.code, "invalid_request");
    assert_eq!(body.message, "instance_id must be a UUID");

    let key_message = "idempotency_key must contain 1-512 non-control characters";
    for key in ["", &"k".repeat(513), "a\tb", "a\u{7f}", "a\u{85}b", &"\u{e9}".repeat(257)] {
        let body = error(app.handle_agent_enqueue("req".into(), params(key, "")));
        assert_eq!(body.code, "invalid_request");
        assert_eq!(body.message, key_message);
    }

    let text_message = "queue text must contain 1-16384 bytes and no NUL";
    for text in ["", &"t".repeat(16_385), "a\0b", &"\u{20ac}".repeat(5_462)] {
        let body = error(app.handle_agent_enqueue("req".into(), params("k", text)));
        assert_eq!(body.code, "invalid_request");
        assert_eq!(body.message, text_message);
    }

    let mut stale = params("k", "hello");
    stale.instance_id = OTHER.to_uppercase();
    let body = error(app.handle_agent_enqueue("req".into(), stale));
    assert_eq!(body.code, "instance_mismatch");
    assert_eq!(
        body.message,
        format!("agent instance {OTHER} is not current")
    );
    assert!(app.events.is_empty());
    assert_eq!(app.agent_queue.store_mut().unwrap().event_count(), Ok(0));
}

#[test]
fn enqueue_takes_what_is_just_within_the_limits() {
    let mut app = app();
    queue(app.handle_agent_enqueue("1".into(), params(&"k".repeat(512), &"t".repeat(16_384))));
    queue(app.handle_agent_enqueue(
        "2".into(),
        params(&"\u{e9}".repeat(256), "tabs\tand\nlines"),
    ));
    assert_eq!(app.events.len(), 2);
}

#[test]
fn rows_are_shown_and_listed() {
    let mut app = app();
    let one = queue(app.handle_agent_enqueue("1".into(), params("a", "x")));
    let two = queue(app.handle_agent_enqueue("2".into(), params("b", "y")));
    let got = app.handle_agent_queue_get(
        "get".into(),
        AgentQueueGetParams {
            queue_id: one.queue_id.clone(),
        },
    );
    assert_eq!(queue(got), one);
    let missing = error(app.handle_agent_queue_get(
        "get".into(),
        AgentQueueGetParams {
            queue_id: "nope".into(),
        },
    ));
    assert_eq!(missing.code, "queue_not_found");
    assert_eq!(missing.message, "agent queue row not found");

    let mut list = |instance_id: Option<&str>, state| {
        let response = app.handle_agent_queue_list(
            "list".into(),
            AgentQueueListParams {
                instance_id: instance_id.map(str::to_string),
                state,
            },
        );
        match response.outcome {
            ApiOutcome::Success(ResponseResult::AgentQueueList { queues }) => Ok(queues),
            ApiOutcome::Error(body) => Err(body),
            other => panic!("expected a list: {other:?}"),
        }
    };
    assert_eq!(list(None, None).unwrap(), [one.clone(), two.clone()]);
    assert_eq!(list(Some(INSTANCE), None).unwrap(), [one, two]);
    assert!(list(Some(OTHER), None).unwrap().is_empty());
    assert!(list(None, Some(AgentQueueState::Canceled)).unwrap().is_empty());
    // The filter is the text as it was given.
    assert!(list(Some(&INSTANCE.to_uppercase()), None).unwrap().is_empty());
    let body = list(Some("nope"), None).unwrap_err();
    assert_eq!(body.code, "invalid_request");
    assert_eq!(body.message, "instance_id must be a UUID");
}

#[test]
fn cancel_is_told_when_it_changes_the_row() {
    let mut app = app();
    let one = queue(app.handle_agent_enqueue("1".into(), params("a", "x")));
    let cancel = |app: &mut App, queue_id: &str| {
        app.handle_agent_queue_cancel(
            "cancel".into(),
            AgentQueueCancelParams {
                queue_id: queue_id.to_string(),
            },
        )
    };
    let canceled = queue(cancel(&mut app, &one.queue_id));
    assert_eq!(canceled.state, AgentQueueState::Canceled);
    assert_eq!(queue(cancel(&mut app, &one.queue_id)), canceled);
    assert_eq!(
        told(&app),
        [
            (one.queue_id.clone(), AgentQueueState::Queued),
            (one.queue_id.clone(), AgentQueueState::Canceled),
        ]
    );
    assert_eq!(error(cancel(&mut app, "nope")).code, "queue_not_found");

    let two = queue(app.handle_agent_enqueue("2".into(), params("b", "y")));
    app.agent_queue
        .store_mut()
        .unwrap()
        .claim_next(INSTANCE)
        .unwrap()
        .unwrap();
    let body = error(cancel(&mut app, &two.queue_id));
    assert_eq!(body.code, "already_submitted");
    assert_eq!(
        body.message,
        format!(
            "queue {} may already have reached the terminal in state attempting",
            two.queue_id
        )
    );
    assert_eq!(app.events.len(), 3);
}

#[test]
fn acknowledgement_is_told_when_it_changes_the_row() {
    let mut app = app();
    let one = queue(app.handle_agent_enqueue("1".into(), params("a", "x")));
    let ack = |app: &mut App, queue_id: &str| {
        app.handle_agent_queue_ack(
            "ack".into(),
            AgentQueueAckParams {
                queue_id: queue_id.to_string(),
            },
        )
    };
    let body = error(ack(&mut app, &one.queue_id));
    assert_eq!(body.code, "invalid_queue_state");
    assert_eq!(
        body.message,
        format!(
            "queue {} cannot perform that operation from state queued",
            one.queue_id
        )
    );
    app.agent_queue
        .store_mut()
        .unwrap()
        .claim_next(INSTANCE)
        .unwrap()
        .unwrap();
    let done = queue(ack(&mut app, &one.queue_id));
    assert_eq!(done.state, AgentQueueState::Acknowledged);
    assert_eq!(queue(ack(&mut app, &one.queue_id)), done);
    assert_eq!(app.events.len(), 2);
    assert_eq!(error(ack(&mut app, "nope")).code, "queue_not_found");
}

#[test]
fn handlers_take_the_time_and_the_id_that_they_are_given() {
    let mut app = app();
    let one = queue(app.handle_agent_enqueue_at(
        "1".into(),
        params("a", "x"),
        "q1".to_string(),
        86_400_000,
    ));
    assert_eq!(one.queue_id, "q1");
    assert_eq!(one.created_at, "1970-01-02T00:00:00Z");
    let canceled = queue(app.handle_agent_queue_cancel_at(
        "2".into(),
        AgentQueueCancelParams {
            queue_id: "q1".into(),
        },
        86_400_001,
    ));
    assert_eq!(canceled.created_at, "1970-01-02T00:00:00Z");
    assert_eq!(canceled.updated_at, "1970-01-02T00:00:00.001Z");
    let refused = error(app.handle_agent_queue_ack_at(
        "3".into(),
        AgentQueueAckParams {
            queue_id: "q1".into(),
        },
        86_400_002,
    ));
    assert_eq!(refused.code, "invalid_queue_state");
}

#[test]
fn without_a_store_every_queue_request_fails() {
    let mut app = app();
    app.agent_queue = QueueRuntime::open(Err(StoreError {
        kind: StoreErrorKind::Corrupt,
        message: "broken".to_string(),
    }));
    let responses = vec![
        app.handle_agent_enqueue("r".into(), params("a", "x")),
        app.handle_agent_queue_get("r".into(), AgentQueueGetParams { queue_id: "q".into() }),
        app.handle_agent_queue_list(
            "r".into(),
            AgentQueueListParams {
                instance_id: None,
                state: None,
            },
        ),
        app.handle_agent_queue_cancel(
            "r".into(),
            AgentQueueCancelParams { queue_id: "q".into() },
        ),
        app.handle_agent_queue_ack("r".into(), AgentQueueAckParams { queue_id: "q".into() }),
    ];
    for response in responses {
        assert_eq!(response.id, "r");
        let body = error(response);
        assert_eq!(body.code, "store_corrupt");
        assert_eq!(body.message, "broken");
    }
    assert!(app.events.is_empty());
}

#[test]
fn queue_errors_are_answered_by_their_codes() {
    let store = StoreError {
        kind: StoreErrorKind::Full,
        message: "disk".to_string(),
    };
    let body = error(encode_queue_store_error("r".into(), store.clone()));
    assert_eq!((body.code.as_str(), body.message.as_str()), ("store_full", "disk"));
    let body = error(encode_queue_error("r".into(), QueueError::from(store)));
    assert_eq!(body.code, "store_full");
    let body = error(encode_queue_error("r".into(), QueueError::NotFound));
    assert_eq!(body.code, "queue_not_found");
}

#[test]
fn emitted_events_line_up() {
    let mut app = app();
    let one = queue(app.handle_agent_enqueue("1".into(), params("a", "x")));
    app.emit_agent_queue_updated(one.clone());
    assert_eq!(told(&app).len(), 2);
    assert_eq!(told(&app)[1].0, one.queue_id);
}

#[test]
fn validation_gives_the_canonical_instance() {
    let app = app();
    let mut upper = params("k", "hello");
    upper.instance_id = INSTANCE.to_uppercase();
    assert_eq!(app.validate_enqueue(&upper).unwrap(), INSTANCE);
    let refused = app.validate_enqueue(&params("", "hello")).unwrap_err();
    assert_eq!(refused.code, "invalid_request");
}

#[test]
fn unreadable_row_is_answered_as_storage_trouble() {
    let mut app = app();
    let one = queue(app.handle_agent_enqueue("1".into(), params("a", "x")));
    let store = app.agent_queue.store_mut().unwrap();
    let (mut rows, log) = (store.stored_rows(), store.stored_log());
    rows[0].state = "lost".to_string();
    app.agent_queue = QueueRuntime::open(QueueStore::open(rows, log));
    let get = app.handle_agent_queue_get(
        "get".into(),
        AgentQueueGetParams {
            queue_id: one.queue_id,
        },
    );
    let list = app.handle_agent_queue_list(
        "list".into(),
        AgentQueueListParams {
            instance_id: None,
            state: None,
        },
    );
    for response in [get, list] {
        let body = error(response);
        assert_eq!(body.code, "store_unavailable");
        assert_eq!(
            body.message,
            "durable queue database error: Conversion error from type Text at index: 3, invalid queue state lost"
        );
    }
}
