use herdr_queue::queue::error::{
    classify_sqlite_error, DatabaseError, SqliteCode, StoreError, StoreErrorKind,
};
use herdr_queue::queue::opening::{OpenReply, OpenStage, Opening};
use herdr_queue::queue::row::StoredRow;
use herdr_queue::queue::store::QueueStore;

fn usual(stage: OpenStage) -> OpenReply {
    match stage {
        OpenStage::JournalMode => OpenReply::Text("WAL".to_string()),
        OpenStage::ReadSynchronous => OpenReply::Number(2),
        OpenStage::QuickCheck => OpenReply::Text("ok".to_string()),
        _ => OpenReply::Done,
    }
}

fn open_until(
    mut opening: Opening,
    stop: OpenStage,
    reply: OpenReply,
) -> Result<Option<Opening>, StoreError> {
    let mut reply = Some(reply);
    loop {
        if opening.stage == stop {
            return opening.resume(reply.take().unwrap());
        }
        opening = opening.resume(usual(opening.stage)).unwrap().unwrap();
    }
}

#[test]
fn durable_store_is_opened_step_by_step() {
    let mut stages = Vec::new();
    let mut due = Some(Opening::in_file(true));
    while let Some(opening) = due {
        stages.push(opening.stage);
        due = opening.resume(usual(opening.stage)).unwrap();
    }
    assert_eq!(
        stages,
        [
            OpenStage::CreateDirectory,
            OpenStage::Connect,
            OpenStage::SetBusyTimeout,
            OpenStage::SetForeignKeys,
            OpenStage::JournalMode,
            OpenStage::SetSynchronous,
            OpenStage::ReadSynchronous,
            OpenStage::CreateSchema,
            OpenStage::QuickCheck,
            OpenStage::Recover,
        ]
    );
    assert_eq!(Opening::in_file(false).stage, OpenStage::Connect);
}

#[test]
fn store_in_memory_takes_any_journal_and_is_not_checked() {
    let mut stages = Vec::new();
    let mut due = Some(Opening::in_memory());
    while let Some(opening) = due {
        stages.push(opening.stage);
        let reply = match opening.stage {
            OpenStage::JournalMode => OpenReply::Text("memory".to_string()),
            stage => usual(stage),
        };
        due = opening.resume(reply).unwrap();
    }
    assert_eq!(stages.first(), Some(&OpenStage::Connect));
    assert_eq!(stages.last(), Some(&OpenStage::CreateSchema));
    assert_eq!(stages.len(), 7);
}

#[test]
fn store_without_wal_is_refused() {
    let error = open_until(
        Opening::in_file(true),
        OpenStage::JournalMode,
        OpenReply::Text("delete".to_string()),
    )
    .unwrap_err();
    assert_eq!(error.kind, StoreErrorKind::Unavailable);
    assert_eq!(
        error.message,
        "durable queue refused non-WAL journal mode delete"
    );
}

#[test]
fn store_that_is_not_synchronous_is_refused() {
    let error = open_until(
        Opening::in_memory(),
        OpenStage::ReadSynchronous,
        OpenReply::Number(1),
    )
    .unwrap_err();
    assert_eq!(error.kind, StoreErrorKind::Unavailable);
    assert_eq!(
        error.message,
        "durable queue refused synchronous mode below FULL"
    );
}

#[test]
fn corrupt_store_is_refused() {
    let finding = open_until(
        Opening::in_file(true),
        OpenStage::QuickCheck,
        OpenReply::Text("row missing".to_string()),
    )
    .unwrap_err();
    assert_eq!(finding.kind, StoreErrorKind::Corrupt);
    assert_eq!(
        finding.message,
        "durable queue integrity check failed: row missing"
    );

    let failure = open_until(
        Opening::in_file(true),
        OpenStage::SetForeignKeys,
        OpenReply::Failed(DatabaseError {
            code: Some(SqliteCode::NotADatabase),
            text: "file is not a database".to_string(),
        }),
    )
    .unwrap_err();
    assert_eq!(failure.kind, StoreErrorKind::Corrupt);
    assert_eq!(
        failure.message,
        "durable queue database error: file is not a database"
    );
}

#[test]
fn full_disk_is_told_apart() {
    let reply = |os_error| OpenReply::DirectoryFailed {
        os_error,
        text: "cannot".to_string(),
    };
    let full = Opening::in_file(true).resume(reply(Some(28))).unwrap_err();
    assert_eq!(full.kind, StoreErrorKind::Full);
    assert_eq!(
        full.message,
        "failed to create durable queue directory: cannot"
    );
    for os_error in [Some(13), None] {
        let other = Opening::in_file(true).resume(reply(os_error)).unwrap_err();
        assert_eq!(other.kind, StoreErrorKind::Unavailable);
    }
}

#[test]
fn refused_recovery_refuses_the_store() {
    let error = StoreError {
        kind: StoreErrorKind::Busy,
        message: "locked".to_string(),
    };
    assert_eq!(
        open_until(
            Opening::in_file(true),
            OpenStage::Recover,
            OpenReply::Refused(error.clone()),
        ),
        Err(error)
    );
}

#[test]
fn unfitting_reply_leaves_the_step_due() {
    let opening = Opening::in_memory();
    assert_eq!(
        opening.resume(OpenReply::Number(2)),
        Ok(Some(Opening::in_memory()))
    );
}

#[test]
fn database_codes_have_these_kinds() {
    let kinds = [
        (Some(SqliteCode::DatabaseBusy), StoreErrorKind::Busy),
        (Some(SqliteCode::DatabaseLocked), StoreErrorKind::Busy),
        (Some(SqliteCode::DiskFull), StoreErrorKind::Full),
        (Some(SqliteCode::DatabaseCorrupt), StoreErrorKind::Corrupt),
        (Some(SqliteCode::NotADatabase), StoreErrorKind::Corrupt),
        (Some(SqliteCode::Other), StoreErrorKind::Unavailable),
        (None, StoreErrorKind::Unavailable),
    ];
    for (code, kind) in kinds {
        let error = classify_sqlite_error(DatabaseError {
            code,
            text: "t".to_string(),
        });
        assert_eq!(error.kind, kind);
        assert_eq!(error.message, "durable queue database error: t");
    }
}

const SCHEMA: &str = "CREATE TABLE agent_queue (
        enqueue_seq INTEGER PRIMARY KEY AUTOINCREMENT,
        queue_id TEXT UNIQUE NOT NULL,
        instance_id TEXT NOT NULL,
        state TEXT NOT NULL,
        attempts INTEGER NOT NULL
    );
    CREATE UNIQUE INDEX agent_queue_one_inflight ON agent_queue(instance_id)
        WHERE state IN ('attempting','submitted','ambiguous');
    INSERT INTO agent_queue (queue_id, instance_id, state, attempts)
        VALUES ('q', 'a', 'ambiguous', 9223372036854775807);";

fn row(queue_id: &str, key: &str, state: &str, attempts: i64) -> StoredRow {
    StoredRow {
        queue_id: queue_id.to_string(),
        instance_id: "a".to_string(),
        idempotency_key: key.to_string(),
        text: "x".to_string(),
        state: state.to_string(),
        attempts,
        block_reason: None,
        last_error: None,
        pty_epoch: None,
        created_at_ms: 0,
        updated_at_ms: 0,
    }
}

fn message(error: herdr_queue::queue::error::QueueError) -> String {
    match error {
        herdr_queue::queue::error::QueueError::Store(error) => error.message,
        other => panic!("expected a store error: {other:?}"),
    }
}

#[test]
fn refusals_of_the_schema_are_worded_as_sqlite_words_them() {
    let connection = rusqlite::Connection::open_in_memory().unwrap();
    connection.execute_batch(SCHEMA).unwrap();
    let rows = vec![
        row("first", "1", "queued", 0),
        row("q", "2", "ambiguous", i64::MAX),
    ];
    let mut store = QueueStore::load(rows, Vec::new());

    let taken = connection
        .execute(
            "INSERT INTO agent_queue (queue_id, instance_id, state, attempts)
             VALUES ('q', 'b', 'queued', 0)",
            [],
        )
        .unwrap_err();
    assert_eq!(
        message(store.enqueue_at("b", "1", "x", "q".to_string(), 0).unwrap_err()),
        format!("durable queue database error: {taken}")
    );

    let second = connection
        .execute(
            "INSERT INTO agent_queue (queue_id, instance_id, state, attempts)
             VALUES ('r', 'a', 'attempting', 0)",
            [],
        )
        .unwrap_err();
    assert_eq!(
        message(store.claim_next("a").unwrap_err()),
        format!("durable queue database error: {second}")
    );

    store.cancel("first").unwrap();
    connection
        .execute("UPDATE agent_queue SET attempts = attempts + 1", [])
        .unwrap();
    let real = connection
        .query_row(
            "SELECT queue_id, instance_id, queue_id, state, attempts FROM agent_queue",
            [],
            |row| row.get::<_, i64>(4),
        )
        .unwrap_err();
    assert_eq!(
        message(store.claim_next("a").unwrap_err()),
        format!("durable queue database error: {real}")
    );
}
