//! Opening the store: which database calls are made, in which order, and when the store is
//! refused.
use crate::queue::error::{
    DatabaseError, StoreError, StoreErrorKind, StoreErrorModel, classify_sqlite_error,
    database_trouble,
};
use crate::text::{
    ascii_lower, concat2, same_ignoring_ascii_case, same_text, same_text_ignoring_case,
};
use vstd::prelude::*;

verus! {

/// The version that the schema is stamped with.
pub const SCHEMA_VERSION: i64 = 1;

/// How long a call waits for a locked database, in milliseconds.
pub const BUSY_TIMEOUT_MS: u64 = 5000;

/// The operating system's number for a full disk.
pub const NO_SPACE_LEFT: i32 = 28;

/// The lowest synchronous level that the store works with: FULL.
pub const SYNCHRONOUS_FULL: i64 = 2;

/// A step of opening the store, which stands for the call that it makes.
#[derive(Debug, Clone, Copy, PartialEq, Eq, Structural)]
pub enum OpenStage {
    /// Create the directory of the database file.
    CreateDirectory,
    /// Connect to the file, or to a database in memory.
    Connect,
    /// Set the busy timeout.
    SetBusyTimeout,
    /// Switch foreign keys on.
    SetForeignKeys,
    /// Enter WAL mode, or in memory just read the journal mode. Answers the mode.
    JournalMode,
    /// Set the synchronous level to FULL.
    SetSynchronous,
    /// Read the synchronous level. Answers it.
    ReadSynchronous,
    /// Create the tables that are missing and stamp the version, in one transaction.
    CreateSchema,
    /// Run SQLite's quick check. Answers its finding.
    QuickCheck,
    /// Turn interrupted deliveries into ambiguous ones.
    Recover,
}

/// A store that is being opened: whether it is kept in a file, and the step that is due.
#[derive(Debug, Clone, Copy, PartialEq, Eq, Structural)]
pub struct Opening {
    pub durable: bool,
    pub stage: OpenStage,
}

/// What the call of a step gave.
#[derive(Debug, PartialEq, Eq)]
pub enum OpenReply {
    Done,
    Text(String),
    Number(i64),
    DirectoryFailed { os_error: Option<i32>, text: String },
    Failed(DatabaseError),
    Refused(StoreError),
}

/// The reply is of a kind that the step can give.
pub open spec fn fits(stage: OpenStage, reply: OpenReply) -> bool {
    match stage {
        OpenStage::CreateDirectory => reply is Done || reply is DirectoryFailed,
        OpenStage::JournalMode | OpenStage::QuickCheck => reply is Text || reply is Failed,
        OpenStage::ReadSynchronous => reply is Number || reply is Failed,
        OpenStage::Recover => reply is Done || reply is Failed || reply is Refused,
        _ => reply is Done || reply is Failed,
    }
}

/// Why the store is refused on this reply, if it is.
pub open spec fn refusal(opening: Opening, reply: OpenReply) -> Option<StoreErrorModel> {
    match reply {
        OpenReply::Failed(e) => Some(database_trouble(e.code, e.text@)),
        OpenReply::Refused(e) => Some(e@),
        OpenReply::DirectoryFailed { os_error, text } => Some(
            StoreErrorModel {
                kind: if os_error == Some(NO_SPACE_LEFT) {
                    StoreErrorKind::Full
                } else {
                    StoreErrorKind::Unavailable
                },
                message: "failed to create durable queue directory: "@ + text@,
            },
        ),
        OpenReply::Text(text) => if opening.stage is JournalMode {
            if opening.durable && !same_ignoring_ascii_case(text@, "wal"@) {
                Some(
                    StoreErrorModel {
                        kind: StoreErrorKind::Unavailable,
                        message: "durable queue refused non-WAL journal mode "@ + text@,
                    },
                )
            } else {
                None
            }
        } else if text@ != "ok"@ {
            Some(
                StoreErrorModel {
                    kind: StoreErrorKind::Corrupt,
                    message: "durable queue integrity check failed: "@ + text@,
                },
            )
        } else {
            None
        },
        OpenReply::Number(level) => if level < SYNCHRONOUS_FULL {
            Some(
                StoreErrorModel {
                    kind: StoreErrorKind::Unavailable,
                    message: "durable queue refused synchronous mode below FULL"@,
                },
            )
        } else {
            None
        },
        OpenReply::Done => None,
    }
}

/// The step after `stage`, if there is one.
pub open spec fn following(durable: bool, stage: OpenStage) -> Option<OpenStage> {
    match stage {
        OpenStage::CreateDirectory => Some(OpenStage::Connect),
        OpenStage::Connect => Some(OpenStage::SetBusyTimeout),
        OpenStage::SetBusyTimeout => Some(OpenStage::SetForeignKeys),
        OpenStage::SetForeignKeys => Some(OpenStage::JournalMode),
        OpenStage::JournalMode => Some(OpenStage::SetSynchronous),
        OpenStage::SetSynchronous => Some(OpenStage::ReadSynchronous),
        OpenStage::ReadSynchronous => Some(OpenStage::CreateSchema),
        OpenStage::CreateSchema => if durable {
            Some(OpenStage::QuickCheck)
        } else {
            None
        },
        OpenStage::QuickCheck => Some(OpenStage::Recover),
        OpenStage::Recover => None,
    }
}

/// Where opening stands.
pub enum OpenProgress {
    /// The step is due.
    Due(Opening),
    /// The store is open.
    Opened,
    /// The store is refused.
    Refused(StoreErrorModel),
}

/// Where opening stands after a reply. A reply that does not fit leaves the step due.
pub open spec fn progress(opening: Opening, reply: OpenReply) -> OpenProgress {
    if !fits(opening.stage, reply) {
        OpenProgress::Due(opening)
    } else {
        match refusal(opening, reply) {
            Some(e) => OpenProgress::Refused(e),
            None => match following(opening.durable, opening.stage) {
                Some(stage) => OpenProgress::Due(Opening { durable: opening.durable, stage }),
                None => OpenProgress::Opened,
            },
        }
    }
}

/// The contents of what [`Opening::resume`] gives.
pub open spec fn progress_view(r: Result<Option<Opening>, StoreError>) -> OpenProgress {
    match r {
        Ok(Some(opening)) => OpenProgress::Due(opening),
        Ok(None) => OpenProgress::Opened,
        Err(e) => OpenProgress::Refused(e@),
    }
}

impl Opening {
    /// Starts to open the store in a file, which lies in a directory to be made if
    /// `has_parent`.
    pub fn in_file(has_parent: bool) -> (r: Self)
        ensures
            r.durable,
            r.stage == (if has_parent {
                OpenStage::CreateDirectory
            } else {
                OpenStage::Connect
            }),
    {
        let stage: OpenStage = if has_parent {
            OpenStage::CreateDirectory
        } else {
            OpenStage::Connect
        };
        Opening { durable: true, stage }
    }

    /// Starts to open a store in memory.
    pub fn in_memory() -> (r: Self)
        ensures
            r == (Opening { durable: false, stage: OpenStage::Connect }),
    {
        Opening { durable: false, stage: OpenStage::Connect }
    }

    /// Goes on with the reply of the step that was due: to the next step, to the open store
    /// (`None`), or to a refusal.
    pub fn resume(self, reply: OpenReply) -> (r: Result<Option<Opening>, StoreError>)
        ensures
            progress_view(r) == progress(self, reply),
    {
        match (self.stage, reply) {
            (OpenStage::CreateDirectory, OpenReply::DirectoryFailed { os_error, text }) => {
                let full: bool = match os_error {
                    Some(code) => code == NO_SPACE_LEFT,
                    None => false,
                };
                let kind: StoreErrorKind = if full {
                    StoreErrorKind::Full
                } else {
                    StoreErrorKind::Unavailable
                };
                Err(
                    StoreError {
                        kind,
                        message: concat2(
                            "failed to create durable queue directory: ",
                            text.as_str(),
                        ),
                    },
                )
            },
            (OpenStage::CreateDirectory, OpenReply::Failed(_)) => Ok(Some(self)),
            (_, OpenReply::Failed(e)) => Err(classify_sqlite_error(e)),
            (OpenStage::Recover, OpenReply::Refused(e)) => Err(e),
            (OpenStage::JournalMode, OpenReply::Text(mode)) => {
                if self.durable && !same_text_ignoring_case(mode.as_str(), "wal") {
                    return Err(
                        StoreError {
                            kind: StoreErrorKind::Unavailable,
                            message: concat2(
                                "durable queue refused non-WAL journal mode ",
                                mode.as_str(),
                            ),
                        },
                    );
                }
                Ok(self.advance())
            },
            (OpenStage::QuickCheck, OpenReply::Text(finding)) => {
                if !same_text(finding.as_str(), "ok") {
                    return Err(
                        StoreError {
                            kind: StoreErrorKind::Corrupt,
                            message: concat2(
                                "durable queue integrity check failed: ",
                                finding.as_str(),
                            ),
                        },
                    );
                }
                Ok(self.advance())
            },
            (OpenStage::ReadSynchronous, OpenReply::Number(level)) => {
                if level < SYNCHRONOUS_FULL {
                    return Err(
                        StoreError {
                            kind: StoreErrorKind::Unavailable,
                            message: "durable queue refused synchronous mode below FULL".to_owned(),
                        },
                    );
                }
                Ok(self.advance())
            },
            (OpenStage::JournalMode, OpenReply::Done)
            | (OpenStage::QuickCheck, OpenReply::Done)
            | (OpenStage::ReadSynchronous, OpenReply::Done) => Ok(Some(self)),
            (_, OpenReply::Done) => Ok(self.advance()),
            _ => Ok(Some(self)),
        }
    }

    /// The opening with the next step due, if there is one.
    fn advance(self) -> (r: Option<Opening>)
        ensures
            match following(self.durable, self.stage) {
                Some(stage) => r == Some(Opening { durable: self.durable, stage }),
                None => r is None,
            },
    {
        let stage: OpenStage = match self.stage {
            OpenStage::CreateDirectory => OpenStage::Connect,
            OpenStage::Connect => OpenStage::SetBusyTimeout,
            OpenStage::SetBusyTimeout => OpenStage::SetForeignKeys,
            OpenStage::SetForeignKeys => OpenStage::JournalMode,
            OpenStage::JournalMode => OpenStage::SetSynchronous,
            OpenStage::SetSynchronous => OpenStage::ReadSynchronous,
            OpenStage::ReadSynchronous => OpenStage::CreateSchema,
            OpenStage::CreateSchema => {
                if !self.durable {
                    return None;
                }
                OpenStage::QuickCheck
            },
            OpenStage::QuickCheck => OpenStage::Recover,
            OpenStage::Recover => {
                return None;
            },
        };
        Some(Opening { durable: self.durable, stage })
    }
}

/// Where opening stands after a series of replies.
pub open spec fn progress_all(opening: Opening, replies: Seq<OpenReply>) -> OpenProgress
    decreases replies.len(),
{
    if replies.len() == 0 {
        OpenProgress::Due(opening)
    } else {
        match progress_all(opening, replies.drop_last()) {
            OpenProgress::Due(due) => progress(due, replies.last()),
            ended => ended,
        }
    }
}

/// A step that comes after `stage` or is it.
spec fn rank(stage: OpenStage) -> int {
    match stage {
        OpenStage::CreateDirectory => 0,
        OpenStage::Connect => 1,
        OpenStage::SetBusyTimeout => 2,
        OpenStage::SetForeignKeys => 3,
        OpenStage::JournalMode => 4,
        OpenStage::SetSynchronous => 5,
        OpenStage::ReadSynchronous => 6,
        OpenStage::CreateSchema => 7,
        OpenStage::QuickCheck => 8,
        OpenStage::Recover => 9,
    }
}

/// How far a series of replies has got.
spec fn reached(end: OpenProgress) -> int {
    match end {
        OpenProgress::Due(due) => rank(due.stage),
        OpenProgress::Opened => 10,
        OpenProgress::Refused(_) => -1,
    }
}

/// One of the replies said that WAL mode was entered.
pub open spec fn said_wal(replies: Seq<OpenReply>) -> bool {
    exists|i: int|
        0 <= i < replies.len() && (#[trigger] replies[i] matches OpenReply::Text(mode)
            && same_ignoring_ascii_case(mode@, "wal"@))
}

/// One of the replies named a synchronous level of at least FULL.
pub open spec fn said_synchronous(replies: Seq<OpenReply>) -> bool {
    exists|i: int|
        0 <= i < replies.len() && (#[trigger] replies[i] matches OpenReply::Number(level) && level
            >= SYNCHRONOUS_FULL)
}

/// One of the replies said that the quick check found nothing.
pub open spec fn said_ok(replies: Seq<OpenReply>) -> bool {
    exists|i: int|
        0 <= i < replies.len() && (#[trigger] replies[i] matches OpenReply::Text(finding)
            && finding@ == "ok"@)
}

proof fn lemma_progress(opening: Opening, replies: Seq<OpenReply>)
    requires
        opening.durable,
        rank(opening.stage) <= 1,
    ensures
        progress_all(opening, replies) matches OpenProgress::Due(due) ==> due.durable,
        reached(progress_all(opening, replies)) > 4 ==> said_wal(replies),
        reached(progress_all(opening, replies)) > 6 ==> said_synchronous(replies),
        reached(progress_all(opening, replies)) > 8 ==> said_ok(replies),
    decreases replies.len(),
{
    if replies.len() > 0 {
        let init = replies.drop_last();
        lemma_progress(opening, init);
        let last = replies.last();
        assert(replies[replies.len() - 1] == last);
        if said_wal(init) {
            let i = choose|i: int|
                0 <= i < init.len() && (#[trigger] init[i] matches OpenReply::Text(mode)
                    && same_ignoring_ascii_case(mode@, "wal"@));
            assert(replies[i] == init[i]);
        }
        if said_synchronous(init) {
            let i = choose|i: int|
                0 <= i < init.len() && (#[trigger] init[i] matches OpenReply::Number(level)
                    && level >= SYNCHRONOUS_FULL);
            assert(replies[i] == init[i]);
        }
        if said_ok(init) {
            let i = choose|i: int|
                0 <= i < init.len() && (#[trigger] init[i] matches OpenReply::Text(finding)
                    && finding@ == "ok"@);
            assert(replies[i] == init[i]);
        }
    }
}

/// A store in a file is opened only in WAL mode, with a synchronous level of at least FULL, and
/// after the quick check has found nothing.
pub proof fn law_open_store_is_durable(opening: Opening, replies: Seq<OpenReply>)
    requires
        opening.durable,
        opening.stage is CreateDirectory || opening.stage is Connect,
        progress_all(opening, replies) is Opened,
    ensures
        said_wal(replies),
        said_synchronous(replies),
        said_ok(replies),
{
    lemma_progress(opening, replies);
}

/// A database that is damaged, or is not one, is refused as corrupt, whatever the step was.
pub proof fn law_corrupt_database_is_refused(opening: Opening, error: DatabaseError)
    requires
        !(opening.stage is CreateDirectory),
        error.code == Some(crate::queue::error::SqliteCode::NotADatabase) || error.code == Some(
            crate::queue::error::SqliteCode::DatabaseCorrupt,
        ),
    ensures
        progress(opening, OpenReply::Failed(error)) matches OpenProgress::Refused(e) && e.kind
            is Corrupt,
{
}

/// The text is `wal` in letters of any case.
pub open spec fn reads_wal(text: Seq<char>) -> bool {
    &&& text.len() == 3
    &&& text[0] == 'w' || text[0] == 'W'
    &&& text[1] == 'a' || text[1] == 'A'
    &&& text[2] == 'l' || text[2] == 'L'
}

/// The step after a reply that is in order.
pub open spec fn goes_to(opening: Opening, reply: OpenReply, stage: OpenStage) -> bool {
    progress(opening, reply) matches OpenProgress::Due(due) && due.durable == opening.durable
        && due.stage == stage
}

/// Opening goes through its steps in order as long as every call succeeds. A store in memory is
/// open when it has its tables; one in a file is then checked and recovered.
pub proof fn law_opening_goes_step_by_step(opening: Opening)
    ensures
        opening.stage is CreateDirectory ==> goes_to(opening, OpenReply::Done, OpenStage::Connect),
        opening.stage is Connect ==> goes_to(opening, OpenReply::Done, OpenStage::SetBusyTimeout),
        opening.stage is SetBusyTimeout ==> goes_to(
            opening,
            OpenReply::Done,
            OpenStage::SetForeignKeys,
        ),
        opening.stage is SetForeignKeys ==> goes_to(
            opening,
            OpenReply::Done,
            OpenStage::JournalMode,
        ),
        opening.stage is SetSynchronous ==> goes_to(
            opening,
            OpenReply::Done,
            OpenStage::ReadSynchronous,
        ),
        opening.stage is CreateSchema && opening.durable ==> goes_to(
            opening,
            OpenReply::Done,
            OpenStage::QuickCheck,
        ),
        opening.stage is CreateSchema && !opening.durable ==> progress(opening, OpenReply::Done)
            is Opened,
        opening.stage is Recover ==> progress(opening, OpenReply::Done) is Opened,
{
}

/// What the database says of itself decides: a store in a file must be in WAL mode, the
/// synchronous level must be at least 2, and the quick check must say `ok`.
pub proof fn law_what_the_database_says_decides(opening: Opening, text: String, level: i64)
    ensures
        opening.stage is JournalMode ==> if opening.durable && !reads_wal(text@) {
            progress(opening, OpenReply::Text(text)) matches OpenProgress::Refused(e) && e.kind
                is Unavailable && e.message == "durable queue refused non-WAL journal mode "@
                + text@
        } else {
            goes_to(opening, OpenReply::Text(text), OpenStage::SetSynchronous)
        },
        opening.stage is ReadSynchronous ==> if level < 2 {
            progress(opening, OpenReply::Number(level)) matches OpenProgress::Refused(e) && e.kind
                is Unavailable && e.message == "durable queue refused synchronous mode below FULL"@
        } else {
            goes_to(opening, OpenReply::Number(level), OpenStage::CreateSchema)
        },
        opening.stage is QuickCheck ==> if text@ != "ok"@ {
            progress(opening, OpenReply::Text(text)) matches OpenProgress::Refused(e) && e.kind
                is Corrupt && e.message == "durable queue integrity check failed: "@ + text@
        } else {
            goes_to(opening, OpenReply::Text(text), OpenStage::Recover)
        },
{
    reveal_strlit("wal");
    let wal = "wal"@;
    assert(wal.len() == 3 && wal[0] == 'w' && wal[1] == 'a' && wal[2] == 'l');
    if same_ignoring_ascii_case(text@, wal) {
        assert(ascii_lower(text@[0]) == ascii_lower(wal[0]));
        assert(ascii_lower(text@[1]) == ascii_lower(wal[1]));
        assert(ascii_lower(text@[2]) == ascii_lower(wal[2]));
    }
    if reads_wal(text@) {
        assert forall|i: int| 0 <= i < text@.len() implies ascii_lower(
            #[trigger] text@[i],
        ) == ascii_lower(wal[i]) by {
            assert(i == 0 || i == 1 || i == 2);
        }
    }
}

/// A call that fails refuses the store: a database call by its code, the directory as full where
/// the disk is, and the recovery with its own error.
pub proof fn law_failed_calls_refuse_the_store(
    opening: Opening,
    error: DatabaseError,
    own: StoreError,
    os_error: Option<i32>,
    text: String,
)
    ensures
        !(opening.stage is CreateDirectory) ==> progress(opening, OpenReply::Failed(error))
            == OpenProgress::Refused(database_trouble(error.code, error.text@)),
        opening.stage is Recover ==> progress(opening, OpenReply::Refused(own))
            == OpenProgress::Refused(own@),
        opening.stage is CreateDirectory ==> {
            &&& progress(opening, OpenReply::DirectoryFailed { os_error, text }) matches
                OpenProgress::Refused(e) && e.message
                == "failed to create durable queue directory: "@ + text@ && (e.kind is Full
                <==> os_error == Some(28i32)) && (e.kind is Unavailable <==> os_error != Some(
                28i32,
            ))
        },
{
}

/// A reply of a kind that the step does not give leaves it due.
pub proof fn law_other_replies_leave_the_step_due(opening: Opening, reply: OpenReply)
    requires
        reply is Text ==> !(opening.stage is JournalMode) && !(opening.stage is QuickCheck),
        reply is Number ==> !(opening.stage is ReadSynchronous),
        reply is DirectoryFailed ==> !(opening.stage is CreateDirectory),
        reply is Failed ==> opening.stage is CreateDirectory,
        reply is Refused ==> !(opening.stage is Recover),
        reply is Done ==> opening.stage is JournalMode || opening.stage is QuickCheck
            || opening.stage is ReadSynchronous,
    ensures
        progress(opening, reply) == OpenProgress::Due(opening),
{
}

/// What [`Opening::resume`] gives is read as it is.
pub proof fn law_progress_is_viewed_as_it_is(opening: Opening, e: StoreError)
    ensures
        progress_view(Ok(Some(opening))) == OpenProgress::Due(opening),
        progress_view(Ok(None)) == OpenProgress::Opened,
        progress_view(Err(e)) == OpenProgress::Refused(e@),
{
}

} // verus!
