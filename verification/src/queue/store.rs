//! The queue store: the operations on the rows and the event log.
use crate::api::schema::{AgentQueueReceipt, AgentQueueState, ReceiptModel};
use crate::clock::now_ms;
use crate::ident::{is_random_uuid, random_uuid};
use crate::queue::changes::{
    RowChanges, at_most, changes, is_logged, law_changes_lead_to_the_present, leads, written,
};
use crate::queue::error::{
    DatabaseError, QueueError, QueueErrorModel, StoreError, classify_sqlite_error, constraint_error,
};
use crate::queue::laws::{QueueOp, law_soundness_is_kept};
use crate::queue::model::{
    ClaimResult, EventModel, ListResult, OutcomeModel, QueueModel, ReceiptResult,
    acknowledge_effect, attempts_trouble, being_delivered, by_id, by_key, cancel_effect,
    claim_effect, claimable, claimed_row, empty_queue, enqueue_effect, event_of, first_where,
    gather, get_effect, interrupted_row, is_inflight_state, is_listed, is_orphan, known,
    lemma_first_where_is, lemma_first_where_none, lemma_gather_same, list_effect, listed_receipts,
    mark_ambiguous_effect, mark_submitted_effect, new_row, orphan_effect, orphaned_receipts,
    orphaned_row, other_inflight, put_row, read_row, receipt_of, recover_effect, set_blocked_effect,
    settle_effect, settled_row, sound, stops_listing, update_effect, updated_row,
};
use crate::queue::row::{QueueEvent, StoredRow, receipt_from_row, stored_name};
use crate::text::{owned_option, same_text};
use vstd::prelude::*;

verus! {

/// What enqueueing gave: the receipt, and whether the row was there before.
#[derive(Debug, PartialEq, Eq)]
pub struct EnqueueOutcome {
    pub receipt: AgentQueueReceipt,
    pub duplicate: bool,
}

impl View for EnqueueOutcome {
    type V = OutcomeModel;

    open spec fn view(&self) -> OutcomeModel {
        OutcomeModel { receipt: self.receipt@, duplicate: self.duplicate }
    }
}

/// The contents of what enqueueing gave.
pub open spec fn enqueue_view(r: Result<EnqueueOutcome, QueueError>) -> Result<
    OutcomeModel,
    QueueErrorModel,
> {
    match r {
        Ok(outcome) => Ok(outcome@),
        Err(e) => Err(e@),
    }
}

/// The contents of an operation's result.
pub open spec fn receipt_view(r: Result<AgentQueueReceipt, QueueError>) -> ReceiptResult {
    match r {
        Ok(receipt) => Ok(receipt@),
        Err(e) => Err(e@),
    }
}

/// The contents of what claiming gave.
pub open spec fn claim_view(
    r: Result<Option<(AgentQueueReceipt, String)>, QueueError>,
) -> ClaimResult {
    match r {
        Ok(Some((receipt, text))) => Ok(Some((receipt@, text@))),
        Ok(None) => Ok(None),
        Err(e) => Err(e@),
    }
}

/// The contents of a list of receipts.
pub open spec fn receipts_view(receipts: Seq<AgentQueueReceipt>) -> Seq<ReceiptModel> {
    receipts.map_values(|receipt: AgentQueueReceipt| receipt@)
}

/// The contents of what listing gave.
pub open spec fn list_view(r: Result<Vec<AgentQueueReceipt>, QueueError>) -> ListResult {
    match r {
        Ok(receipts) => Ok(receipts_view(receipts@)),
        Err(e) => Err(e@),
    }
}

/// The texts in a list, as a set.
pub open spec fn text_set(names: Seq<String>) -> Set<Seq<char>> {
    Set::new(|text: Seq<char>| exists|i: int| 0 <= i < names.len() && (#[trigger] names[i])@ == text)
}

/// The rows in the order of enqueueing, and the event log.
#[derive(Debug)]
pub struct QueueStore {
    rows: Vec<StoredRow>,
    events: Vec<QueueEvent>,
}

impl View for QueueStore {
    type V = QueueModel;

    closed spec fn view(&self) -> QueueModel {
        QueueModel {
            rows: self.rows@.map_values(|row: StoredRow| row@),
            events: self.events@.map_values(|event: QueueEvent| event@),
        }
    }
}

/// The queue whose rows are `stored`, in the order of enqueueing, and whose event log is `log`.
pub open spec fn loaded(stored: Seq<StoredRow>, log: Seq<QueueEvent>) -> QueueModel {
    QueueModel {
        rows: stored.map_values(|row: StoredRow| row@),
        events: log.map_values(|event: QueueEvent| event@),
    }
}

impl QueueStore {
    /// A store in memory, with nothing in it.
    pub fn open_in_memory() -> (r: Result<Self, StoreError>)
        ensures
            r is Ok,
            r->Ok_0@ == empty_queue(),
            sound(r->Ok_0@),
    {
        let store: QueueStore = QueueStore { rows: Vec::new(), events: Vec::new() };
        assert(store@.rows =~= empty_queue().rows);
        assert(store@.events =~= empty_queue().events);
        Ok(store)
    }

    /// The store with the rows `stored`, which come in the order of enqueueing, and the event log
    /// `log`.
    pub fn load(stored: Vec<StoredRow>, log: Vec<QueueEvent>) -> (r: Self)
        ensures
            r@ == loaded(stored@, log@),
    {
        QueueStore { rows: stored, events: log }
    }
}

impl QueueStore {
    /// The index of the row `queue_id`.
    fn find_id(&self, queue_id: &str) -> (r: Option<usize>)
        ensures
            match r {
                Some(i) => i < self.rows.len() && first_where(self@.rows, by_id(queue_id@)) == Some(
                    i as int,
                ),
                None => first_where(self@.rows, by_id(queue_id@)) is None,
            },
    {
        let mut i: usize = 0;
        while i < self.rows.len()
            invariant
                i <= self.rows.len(),
                forall|j: int| 0 <= j < i ==> !by_id(queue_id@)(#[trigger] self@.rows[j]),
            decreases self.rows.len() - i,
        {
            if same_text(self.rows[i].queue_id.as_str(), queue_id) {
                proof {
                    lemma_first_where_is(self@.rows, by_id(queue_id@), i as int);
                }
                return Some(i);
            }
            i = i + 1;
        }
        proof {
            lemma_first_where_none(self@.rows, by_id(queue_id@));
        }
        None
    }

    /// The index of the row that `instance_id` has under `key`.
    fn find_key(&self, instance_id: &str, key: &str) -> (r: Option<usize>)
        ensures
            match r {
                Some(i) => i < self.rows.len() && first_where(
                    self@.rows,
                    by_key(instance_id@, key@),
                ) == Some(i as int),
                None => first_where(self@.rows, by_key(instance_id@, key@)) is None,
            },
    {
        let mut i: usize = 0;
        while i < self.rows.len()
            invariant
                i <= self.rows.len(),
                forall|j: int|
                    0 <= j < i ==> !by_key(instance_id@, key@)(#[trigger] self@.rows[j]),
            decreases self.rows.len() - i,
        {
            if same_text(self.rows[i].idempotency_key.as_str(), key) && same_text(
                self.rows[i].instance_id.as_str(),
                instance_id,
            ) {
                proof {
                    lemma_first_where_is(self@.rows, by_key(instance_id@, key@), i as int);
                }
                return Some(i);
            }
            i = i + 1;
        }
        proof {
            lemma_first_where_none(self@.rows, by_key(instance_id@, key@));
        }
        None
    }

    /// What reading row `i` gives.
    fn read(&self, i: usize) -> (r: Result<AgentQueueReceipt, QueueError>)
        requires
            i < self@.rows.len(),
        ensures
            receipt_view(r) == read_row(self@.rows[i as int]),
    {
        match receipt_from_row(&self.rows[i]) {
            Ok(receipt) => Ok(receipt),
            Err(e) => Err(QueueError::Store(e)),
        }
    }

    /// Replaces row `i` by `row`, which is in `state`, and logs the change.
    fn put(&mut self, i: usize, row: StoredRow, state: AgentQueueState, now: i64) -> (r:
        AgentQueueReceipt)
        requires
            i < old(self)@.rows.len(),
            row@.state == known(state),
        ensures
            final(self)@ == put_row(old(self)@, i as int, row@, now),
            final(self).rows.len() == old(self).rows.len(),
            r@ == receipt_of(row@),
    {
        let receipt: AgentQueueReceipt = row.receipt_in(state);
        let event: QueueEvent = row.event(now);
        self.rows[i] = row;
        self.events.push(event);
        assert(self@.rows =~= old(self)@.rows.update(i as int, row@));
        assert(self@.events =~= put_row(old(self)@, i as int, row@, now).events);
        receipt
    }

    /// Appends `row`, which is in `state`, and logs it.
    fn append(&mut self, row: StoredRow, state: AgentQueueState, now: i64) -> (r: AgentQueueReceipt)
        requires
            row@.state == known(state),
        ensures
            final(self)@.rows == old(self)@.rows.push(row@),
            final(self)@.events == old(self)@.events.push(event_of(row@, now)),
            r@ == receipt_of(row@),
    {
        let receipt: AgentQueueReceipt = row.receipt_in(state);
        let event: QueueEvent = row.event(now);
        self.rows.push(row);
        self.events.push(event);
        assert(self@.rows =~= old(self)@.rows.push(row@));
        assert(self@.events =~= old(self)@.events.push(event_of(row@, now)));
        receipt
    }

    /// Enqueues `text` for `instance_id` under `idempotency_key`.
    pub fn enqueue(
        &mut self,
        instance_id: &str,
        idempotency_key: &str,
        text: &str,
    ) -> (r: Result<EnqueueOutcome, QueueError>)
        ensures
            exists|queue_id: Seq<char>, now: i64|
                is_random_uuid(queue_id) && (final(self)@, enqueue_view(r))
                    == #[trigger] enqueue_effect(
                    old(self)@,
                    instance_id@,
                    idempotency_key@,
                    text@,
                    queue_id,
                    now,
                ),
            sound(old(self)@) ==> sound(final(self)@),
    {
        let now: i64 = now_ms();
        let queue_id: String = random_uuid();
        let ghost id = queue_id@;
        let r: Result<EnqueueOutcome, QueueError> = self.enqueue_at(
            instance_id,
            idempotency_key,
            text,
            queue_id,
            now,
        );
        assert((self@, enqueue_view(r)) == enqueue_effect(
            old(self)@,
            instance_id@,
            idempotency_key@,
            text@,
            id,
            now,
        ));
        r
    }

    /// Enqueues `text` at the time `now`, with `queue_id` as the id of a new row.
    pub fn enqueue_at(
        &mut self,
        instance_id: &str,
        idempotency_key: &str,
        text: &str,
        queue_id: String,
        now: i64,
    ) -> (r: Result<EnqueueOutcome, QueueError>)
        ensures
            (final(self)@, enqueue_view(r)) == enqueue_effect(
                old(self)@,
                instance_id@,
                idempotency_key@,
                text@,
                queue_id@,
                now,
            ),
            sound(old(self)@) ==> sound(final(self)@),
    {
        proof {
            if sound(self@) {
                let op = QueueOp::Enqueue {
                    instance_id: instance_id@,
                    key: idempotency_key@,
                    text: text@,
                    queue_id: queue_id@,
                    now,
                };
                law_soundness_is_kept(self@, op);
            }
        }
        match self.find_key(instance_id, idempotency_key) {
            Some(i) => {
                let receipt: AgentQueueReceipt = match self.read(i) {
                    Ok(receipt) => receipt,
                    Err(e) => {
                        return Err(e);
                    },
                };
                if same_text(self.rows[i].text.as_str(), text) {
                    Ok(EnqueueOutcome { receipt, duplicate: true })
                } else {
                    Err(QueueError::IdempotencyConflict(receipt))
                }
            },
            None => {
                if self.find_id(queue_id.as_str()).is_some() {
                    return Err(
                        QueueError::Store(
                            constraint_error("UNIQUE constraint failed: agent_queue.queue_id"),
                        ),
                    );
                }
                let row: StoredRow = StoredRow {
                    queue_id,
                    instance_id: instance_id.to_owned(),
                    idempotency_key: idempotency_key.to_owned(),
                    text: text.to_owned(),
                    state: stored_name(AgentQueueState::Queued),
                    attempts: 0,
                    block_reason: None,
                    last_error: None,
                    pty_epoch: None,
                    created_at_ms: now,
                    updated_at_ms: now,
                };
                assert(row@ == new_row(queue_id@, instance_id@, idempotency_key@, text@, now));
                let receipt: AgentQueueReceipt = self.append(row, AgentQueueState::Queued, now);
                Ok(EnqueueOutcome { receipt, duplicate: false })
            },
        }
    }

    /// The receipt of the row `queue_id`.
    pub fn get(&self, queue_id: &str) -> (r: Result<AgentQueueReceipt, QueueError>)
        ensures
            receipt_view(r) == get_effect(self@, queue_id@),
    {
        match self.find_id(queue_id) {
            Some(i) => self.read(i),
            None => Err(QueueError::NotFound),
        }
    }

    /// The receipts of the rows of `instance_id`, or of all, that are in `state`, or in any,
    /// in the order of enqueueing.
    pub fn list(
        &self,
        instance_id: Option<&str>,
        state: Option<AgentQueueState>,
    ) -> (r: Result<Vec<AgentQueueReceipt>, QueueError>)
        ensures
            list_view(r) == list_effect(self@, instance_id.deep_view(), state),
    {
        let mut listed: Vec<AgentQueueReceipt> = Vec::new();
        let ghost q = self@;
        let ghost stops = stops_listing(instance_id.deep_view(), state);
        let ghost p = |i: int| is_listed(q.rows[i], instance_id.deep_view(), state);
        let ghost f = |i: int| receipt_of(q.rows[i]);
        let mut i: usize = 0;
        while i < self.rows.len()
            invariant
                i <= self.rows.len(),
                q == self@,
                stops == stops_listing(instance_id.deep_view(), state),
                p == (|i: int| is_listed(q.rows[i], instance_id.deep_view(), state)),
                f == (|i: int| receipt_of(q.rows[i])),
                forall|j: int| 0 <= j < i ==> !stops(#[trigger] q.rows[j]),
                receipts_view(listed@) == gather(i as nat, p, f),
            decreases self.rows.len() - i,
        {
            let row: &StoredRow = &self.rows[i];
            assert(row@ == q.rows[i as int]);
            let instance_fits: bool = match instance_id {
                Some(wanted) => same_text(row.instance_id.as_str(), wanted),
                None => true,
            };
            let state_fits: bool = match state {
                Some(wanted) => match row.known_state() {
                    Some(found) => found == wanted,
                    None => false,
                },
                None => true,
            };
            assert(p(i as int) == (instance_fits && state_fits));
            let ghost before = listed@;
            if instance_fits && state_fits {
                match self.read(i) {
                    Ok(receipt) => {
                        listed.push(receipt);
                        assert(receipts_view(listed@) =~= receipts_view(before).push(f(i as int)));
                    },
                    Err(e) => {
                        proof {
                            lemma_first_where_is(q.rows, stops, i as int);
                        }
                        return Err(e);
                    },
                }
            }
            i = i + 1;
        }
        proof {
            lemma_first_where_none(q.rows, stops);
        }
        assert(receipts_view(listed@) == listed_receipts(q, instance_id.deep_view(), state));
        Ok(listed)
    }

    /// The number of entries in the event log.
    pub fn event_count(&self) -> (r: Result<u64, StoreError>)
        ensures
            r == Ok::<u64, StoreError>(self@.events.len() as u64),
            self@.events.len() <= u64::MAX,
    {
        Ok(self.events.len() as u64)
    }
}

impl QueueStore {
    /// Settles the row `queue_id` in the terminal state `target`.
    fn transition_terminal(
        &mut self,
        queue_id: &str,
        target: AgentQueueState,
        now: i64,
    ) -> (r: Result<AgentQueueReceipt, QueueError>)
        ensures
            (final(self)@, receipt_view(r)) == settle_effect(old(self)@, queue_id@, target, now),
    {
        let i: usize = match self.find_id(queue_id) {
            Some(i) => i,
            None => {
                return Err(QueueError::NotFound);
            },
        };
        let from: AgentQueueState = match self.rows[i].known_state() {
            Some(from) => from,
            None => {
                return self.read(i);
            },
        };
        if from == target {
            return self.read(i);
        }
        let allowed: bool = match target {
            AgentQueueState::Canceled => matches!(
                from,
                AgentQueueState::Queued | AgentQueueState::Blocked
            ),
            AgentQueueState::Acknowledged => matches!(
                from,
                AgentQueueState::Attempting | AgentQueueState::Submitted
                    | AgentQueueState::Ambiguous
            ),
            _ => false,
        };
        if !allowed {
            let receipt: AgentQueueReceipt = self.rows[i].receipt_in(from);
            return if matches!(
                from,
                AgentQueueState::Attempting | AgentQueueState::Submitted
                    | AgentQueueState::Ambiguous | AgentQueueState::Acknowledged
            ) {
                Err(QueueError::AlreadySubmitted(receipt))
            } else {
                Err(QueueError::InvalidTransition(receipt))
            };
        }
        let mut row: StoredRow = self.rows[i].clone();
        row.state = stored_name(target);
        row.block_reason = None;
        row.updated_at_ms = now;
        assert(row@ == settled_row(old(self)@.rows[i as int], target, now));
        Ok(self.put(i, row, target, now))
    }

    /// Cancels the row `queue_id`, which is promised only before it is submitted.
    pub fn cancel(&mut self, queue_id: &str) -> (r: Result<AgentQueueReceipt, QueueError>)
        ensures
            exists|now: i64|
                (final(self)@, receipt_view(r)) == #[trigger] cancel_effect(
                    old(self)@,
                    queue_id@,
                    now,
                ),
            sound(old(self)@) ==> sound(final(self)@),
    {
        let now: i64 = now_ms();
        self.cancel_at(queue_id, now)
    }

    /// Cancels the row `queue_id` at the time `now`.
    pub fn cancel_at(
        &mut self,
        queue_id: &str,
        now: i64,
    ) -> (r: Result<AgentQueueReceipt, QueueError>)
        ensures
            (final(self)@, receipt_view(r)) == cancel_effect(old(self)@, queue_id@, now),
            sound(old(self)@) ==> sound(final(self)@),
    {
        proof {
            if sound(self@) {
                law_soundness_is_kept(
                    self@,
                    QueueOp::Cancel { queue_id: queue_id@, now },
                );
            }
        }
        self.transition_terminal(queue_id, AgentQueueState::Canceled, now)
    }

    /// Acknowledges the row `queue_id`, which may have reached the terminal.
    pub fn acknowledge(&mut self, queue_id: &str) -> (r: Result<AgentQueueReceipt, QueueError>)
        ensures
            exists|now: i64|
                (final(self)@, receipt_view(r)) == #[trigger] acknowledge_effect(
                    old(self)@,
                    queue_id@,
                    now,
                ),
            sound(old(self)@) ==> sound(final(self)@),
    {
        let now: i64 = now_ms();
        self.acknowledge_at(queue_id, now)
    }

    /// Acknowledges the row `queue_id` at the time `now`.
    pub fn acknowledge_at(
        &mut self,
        queue_id: &str,
        now: i64,
    ) -> (r: Result<AgentQueueReceipt, QueueError>)
        ensures
            (final(self)@, receipt_view(r)) == acknowledge_effect(old(self)@, queue_id@, now),
            sound(old(self)@) ==> sound(final(self)@),
    {
        proof {
            if sound(self@) {
                law_soundness_is_kept(
                    self@,
                    QueueOp::Acknowledge { queue_id: queue_id@, now },
                );
            }
        }
        let current: AgentQueueReceipt = match self.get(queue_id) {
            Ok(current) => current,
            Err(e) => {
                return Err(e);
            },
        };
        if current.state == AgentQueueState::Acknowledged {
            return Ok(current);
        }
        if matches!(current.state, AgentQueueState::Queued | AgentQueueState::Blocked) {
            return Err(QueueError::InvalidTransition(current));
        }
        if matches!(current.state, AgentQueueState::Canceled | AgentQueueState::Orphaned) {
            return Err(QueueError::InvalidTransition(current));
        }
        self.transition_terminal(queue_id, AgentQueueState::Acknowledged, now)
    }

    /// Marks the waiting row `queue_id` as blocked by `reason`.
    pub fn set_blocked(
        &mut self,
        queue_id: &str,
        reason: &str,
    ) -> (r: Result<AgentQueueReceipt, QueueError>)
        ensures
            exists|now: i64|
                (final(self)@, receipt_view(r)) == #[trigger] set_blocked_effect(
                    old(self)@,
                    queue_id@,
                    reason@,
                    now,
                ),
            sound(old(self)@) ==> sound(final(self)@),
    {
        let now: i64 = now_ms();
        self.set_blocked_at(queue_id, reason, now)
    }

    /// Marks the waiting row `queue_id` as blocked by `reason` at the time `now`.
    pub fn set_blocked_at(
        &mut self,
        queue_id: &str,
        reason: &str,
        now: i64,
    ) -> (r: Result<AgentQueueReceipt, QueueError>)
        ensures
            (final(self)@, receipt_view(r)) == set_blocked_effect(
                old(self)@,
                queue_id@,
                reason@,
                now,
            ),
            sound(old(self)@) ==> sound(final(self)@),
    {
        proof {
            if sound(self@) {
                law_soundness_is_kept(
                    self@,
                    QueueOp::SetBlocked { queue_id: queue_id@, reason: reason@, now },
                );
            }
        }
        let current: AgentQueueReceipt = match self.get(queue_id) {
            Ok(current) => current,
            Err(e) => {
                return Err(e);
            },
        };
        if !matches!(current.state, AgentQueueState::Queued | AgentQueueState::Blocked) {
            return Err(QueueError::InvalidTransition(current));
        }
        if current.state == AgentQueueState::Blocked {
            let same_reason: bool = match &current.block_reason {
                Some(known) => same_text(known.as_str(), reason),
                None => false,
            };
            if same_reason {
                return Ok(current);
            }
        }
        self.update_state(
            queue_id,
            AgentQueueState::Blocked,
            Some(reason),
            None,
            None,
            false,
            now,
        )
    }

    /// Says that the text of `queue_id` was written to the terminal in `pty_epoch`.
    pub fn mark_submitted(
        &mut self,
        queue_id: &str,
        pty_epoch: &str,
    ) -> (r: Result<AgentQueueReceipt, QueueError>)
        ensures
            exists|now: i64|
                (final(self)@, receipt_view(r)) == #[trigger] mark_submitted_effect(
                    old(self)@,
                    queue_id@,
                    pty_epoch@,
                    now,
                ),
            sound(old(self)@) ==> sound(final(self)@),
    {
        let now: i64 = now_ms();
        self.mark_submitted_at(queue_id, pty_epoch, now)
    }

    /// Says at the time `now` that the text of `queue_id` was written to the terminal.
    pub fn mark_submitted_at(
        &mut self,
        queue_id: &str,
        pty_epoch: &str,
        now: i64,
    ) -> (r: Result<AgentQueueReceipt, QueueError>)
        ensures
            (final(self)@, receipt_view(r)) == mark_submitted_effect(
                old(self)@,
                queue_id@,
                pty_epoch@,
                now,
            ),
            sound(old(self)@) ==> sound(final(self)@),
    {
        proof {
            if sound(self@) {
                law_soundness_is_kept(
                    self@,
                    QueueOp::MarkSubmitted { queue_id: queue_id@, pty_epoch: pty_epoch@, now },
                );
            }
        }
        self.update_state(
            queue_id,
            AgentQueueState::Submitted,
            None,
            None,
            Some(pty_epoch),
            false,
            now,
        )
    }

    /// Says that it is not known whether the text of `queue_id` was written to the terminal.
    pub fn mark_ambiguous(
        &mut self,
        queue_id: &str,
        error: &str,
        pty_epoch: Option<&str>,
    ) -> (r: Result<AgentQueueReceipt, QueueError>)
        ensures
            exists|now: i64|
                (final(self)@, receipt_view(r)) == #[trigger] mark_ambiguous_effect(
                    old(self)@,
                    queue_id@,
                    error@,
                    pty_epoch.deep_view(),
                    now,
                ),
            sound(old(self)@) ==> sound(final(self)@),
    {
        let now: i64 = now_ms();
        self.mark_ambiguous_at(queue_id, error, pty_epoch, now)
    }

    /// Says at the time `now` that the fate of the text of `queue_id` is not known.
    pub fn mark_ambiguous_at(
        &mut self,
        queue_id: &str,
        error: &str,
        pty_epoch: Option<&str>,
        now: i64,
    ) -> (r: Result<AgentQueueReceipt, QueueError>)
        ensures
            (final(self)@, receipt_view(r)) == mark_ambiguous_effect(
                old(self)@,
                queue_id@,
                error@,
                pty_epoch.deep_view(),
                now,
            ),
            sound(old(self)@) ==> sound(final(self)@),
    {
        proof {
            if sound(self@) {
                let op = QueueOp::MarkAmbiguous {
                    queue_id: queue_id@,
                    error: error@,
                    known_epoch: pty_epoch.deep_view(),
                    now,
                };
                law_soundness_is_kept(self@, op);
            }
        }
        self.update_state(
            queue_id,
            AgentQueueState::Ambiguous,
            None,
            Some(error),
            pty_epoch,
            false,
            now,
        )
    }

    /// Moves the row `queue_id` to `target`, where that move is allowed.
    fn update_state(
        &mut self,
        queue_id: &str,
        target: AgentQueueState,
        block_reason: Option<&str>,
        last_error: Option<&str>,
        pty_epoch: Option<&str>,
        increment_attempts: bool,
        now: i64,
    ) -> (r: Result<AgentQueueReceipt, QueueError>)
        ensures
            (final(self)@, receipt_view(r)) == update_effect(
                old(self)@,
                queue_id@,
                target,
                block_reason.deep_view(),
                last_error.deep_view(),
                pty_epoch.deep_view(),
                increment_attempts,
                now,
            ),
    {
        let i: usize = match self.find_id(queue_id) {
            Some(i) => i,
            None => {
                return Err(QueueError::NotFound);
            },
        };
        let from: AgentQueueState = match self.rows[i].known_state() {
            Some(from) => from,
            None => {
                return self.read(i);
            },
        };
        let allowed: bool = match target {
            AgentQueueState::Blocked => matches!(
                from,
                AgentQueueState::Queued | AgentQueueState::Blocked
            ),
            AgentQueueState::Submitted | AgentQueueState::Ambiguous => from
                == AgentQueueState::Attempting,
            _ => false,
        };
        if !allowed {
            return Err(QueueError::InvalidTransition(self.rows[i].receipt_in(from)));
        }
        let mut row: StoredRow = self.rows[i].clone();
        if increment_attempts {
            if row.attempts == i64::MAX {
                return Err(QueueError::Store(attempts_error()));
            }
            row.attempts = row.attempts + 1;
        }
        row.state = stored_name(target);
        row.block_reason = owned_option(block_reason);
        row.last_error = owned_option(last_error);
        if let Some(epoch) = pty_epoch {
            row.pty_epoch = Some(epoch.to_owned());
        }
        row.updated_at_ms = now;
        assert(row@ == updated_row(
            old(self)@.rows[i as int],
            target,
            block_reason.deep_view(),
            last_error.deep_view(),
            pty_epoch.deep_view(),
            increment_attempts,
            now,
        ));
        Ok(self.put(i, row, target, now))
    }

    /// Takes up the next row of `instance_id` for delivery: its receipt and its text.
    pub fn claim_next(&mut self, instance_id: &str) -> (r: Result<
        Option<(AgentQueueReceipt, String)>,
        QueueError,
    >)
        ensures
            exists|now: i64|
                (final(self)@, claim_view(r)) == #[trigger] claim_effect(
                    old(self)@,
                    instance_id@,
                    now,
                ),
            sound(old(self)@) ==> sound(final(self)@),
    {
        let now: i64 = now_ms();
        self.claim_next_at(instance_id, now)
    }

    /// Takes up the next row of `instance_id` at the time `now`.
    pub fn claim_next_at(
        &mut self,
        instance_id: &str,
        now: i64,
    ) -> (r: Result<Option<(AgentQueueReceipt, String)>, QueueError>)
        ensures
            (final(self)@, claim_view(r)) == claim_effect(old(self)@, instance_id@, now),
            sound(old(self)@) ==> sound(final(self)@),
    {
        proof {
            if sound(self@) {
                law_soundness_is_kept(
                    self@,
                    QueueOp::Claim { instance_id: instance_id@, now },
                );
            }
        }
        let ghost q = self@;
        let ghost busy = being_delivered(instance_id@);
        let ghost next = claimable(instance_id@);
        let mut found: Option<usize> = None;
        let mut k: usize = 0;
        while k < self.rows.len()
            invariant
                k <= self.rows.len(),
                self@ == q,
                busy == being_delivered(instance_id@),
                next == claimable(instance_id@),
                forall|j: int| 0 <= j < k ==> !busy(#[trigger] q.rows[j]),
                match found {
                    Some(i) => i < k && next(q.rows[i as int]) && forall|j: int|
                        0 <= j < i ==> !next(#[trigger] q.rows[j]),
                    None => forall|j: int| 0 <= j < k ==> !next(#[trigger] q.rows[j]),
                },
                *self == *old(self),
            decreases self.rows.len() - k,
        {
            let row: &StoredRow = &self.rows[k];
            assert(row@ == q.rows[k as int]);
            if same_text(row.instance_id.as_str(), instance_id) {
                let state: Option<AgentQueueState> = row.known_state();
                if matches!(
                    state,
                    Some(AgentQueueState::Attempting) | Some(AgentQueueState::Submitted)
                ) {
                    proof {
                        lemma_first_where_is(q.rows, busy, k as int);
                    }
                    return Ok(None);
                }
                if found.is_none() && matches!(
                    state,
                    Some(AgentQueueState::Queued) | Some(AgentQueueState::Blocked)
                        | Some(AgentQueueState::Ambiguous)
                ) {
                    found = Some(k);
                }
            }
            k = k + 1;
        }
        proof {
            lemma_first_where_none(q.rows, busy);
        }
        let i: usize = match found {
            Some(i) => i,
            None => {
                proof {
                    lemma_first_where_none(q.rows, next);
                }
                return Ok(None);
            },
        };
        proof {
            lemma_first_where_is(q.rows, next, i as int);
        }
        if self.another_inflight(i) {
            return Err(
                QueueError::Store(
                    constraint_error("UNIQUE constraint failed: agent_queue.instance_id"),
                ),
            );
        }
        if self.rows[i].attempts == i64::MAX {
            return Err(QueueError::Store(attempts_error()));
        }
        let mut row: StoredRow = self.rows[i].clone();
        row.state = stored_name(AgentQueueState::Attempting);
        row.attempts = row.attempts + 1;
        row.block_reason = None;
        row.last_error = None;
        row.updated_at_ms = now;
        assert(row@ == claimed_row(q.rows[i as int], now));
        let text: String = row.text.clone();
        let receipt: AgentQueueReceipt = self.put(i, row, AgentQueueState::Attempting, now);
        Ok(Some((receipt, text)))
    }

    /// Whether a row other than `i` of the same instance is in flight.
    fn another_inflight(&self, i: usize) -> (r: bool)
        requires
            i < self@.rows.len(),
        ensures
            r == other_inflight(self@.rows, i as int),
    {
        let mut j: usize = 0;
        while j < self.rows.len()
            invariant
                i < self.rows.len(),
                j <= self.rows.len(),
                forall|k: int|
                    0 <= k < j && k != i && (#[trigger] self@.rows[k]).instance_id
                        == self@.rows[i as int].instance_id
                        ==> !is_inflight_state(self@.rows[k].state),
            decreases self.rows.len() - j,
        {
            assert(self.rows[j as int]@ == self@.rows[j as int]);
            if j != i && matches!(
                self.rows[j].known_state(),
                Some(AgentQueueState::Attempting) | Some(AgentQueueState::Submitted)
                    | Some(AgentQueueState::Ambiguous)
            ) && same_text(self.rows[j].instance_id.as_str(), self.rows[i].instance_id.as_str()) {
                return true;
            }
            j = j + 1;
        }
        false
    }
}

impl QueueStore {
    /// The store with the rows `stored` and the event log `log` after a restart: deliveries that
    /// were under way are ambiguous.
    pub fn open(stored: Vec<StoredRow>, log: Vec<QueueEvent>) -> (r: Result<Self, StoreError>)
        ensures
            r is Ok,
            exists|now: i64|
                r->Ok_0@ == #[trigger] recover_effect(loaded(stored@, log@), now),
            sound(loaded(stored@, log@)) ==> sound(r->Ok_0@),
    {
        let mut store: QueueStore = QueueStore::load(stored, log);
        store.recover_interrupted_attempts();
        Ok(store)
    }

    /// Turns every delivery that was under way into an ambiguous one.
    pub fn recover_interrupted_attempts(&mut self)
        ensures
            exists|now: i64| final(self)@ == #[trigger] recover_effect(old(self)@, now),
            sound(old(self)@) ==> sound(final(self)@),
    {
        let now: i64 = now_ms();
        self.recover_interrupted_attempts_at(now)
    }

    /// Turns every delivery that was under way into an ambiguous one, at the time `now`.
    pub fn recover_interrupted_attempts_at(&mut self, now: i64)
        ensures
            final(self)@ == recover_effect(old(self)@, now),
            sound(old(self)@) ==> sound(final(self)@),
    {
        proof {
            if sound(self@) {
                law_soundness_is_kept(
                    self@,
                    QueueOp::Recover { now },
                );
            }
        }
        let ghost q = self@;
        let ghost goal = recover_effect(q, now);
        let ghost p = |i: int| q.rows[i].state is Attempting;
        let ghost f = |i: int| event_of(interrupted_row(q.rows[i], now), now);
        let mut i: usize = 0;
        assert(self@.events =~= q.events + gather(0, p, f));
        while i < self.rows.len()
            invariant
                i <= self.rows.len(),
                self@.rows.len() == q.rows.len(),
                goal == recover_effect(q, now),
                p == (|i: int| q.rows[i].state is Attempting),
                f == (|i: int| event_of(interrupted_row(q.rows[i], now), now)),
                forall|j: int| 0 <= j < i ==> #[trigger] self@.rows[j] == goal.rows[j],
                forall|j: int| i <= j < q.rows.len() ==> #[trigger] self@.rows[j] == q.rows[j],
                self@.events == q.events + gather(i as nat, p, f),
            decreases self.rows.len() - i,
        {
            assert(self.rows[i as int]@ == self@.rows[i as int]);
            if matches!(self.rows[i].known_state(), Some(AgentQueueState::Attempting)) {
                let mut row: StoredRow = self.rows[i].clone();
                row.state = stored_name(AgentQueueState::Ambiguous);
                row.last_error = Some("server_restarted_during_submission".to_owned());
                row.updated_at_ms = now;
                assert(row@ == interrupted_row(q.rows[i as int], now));
                let _ = self.put(i, row, AgentQueueState::Ambiguous, now);
                assert(self@.events =~= q.events + gather((i + 1) as nat, p, f));
            } else {
                assert(!p(i as int));
            }
            i = i + 1;
        }
        assert(self@.rows =~= goal.rows);
        assert(self@ == goal);
    }

    /// Orphans every unsettled row whose instance is not in `known_instances`, and gives the
    /// receipts of those rows.
    pub fn orphan_missing_instances(&mut self, known_instances: &Vec<String>) -> (r: Result<
        Vec<AgentQueueReceipt>,
        QueueError,
    >)
        ensures
            exists|times: Seq<i64>|
                {
                    &&& times.len() == old(self)@.rows.len()
                    &&& final(self)@ == #[trigger] orphan_effect(
                        old(self)@,
                        text_set(known_instances@),
                        times,
                    )
                    &&& list_view(r) == orphaned_receipts(
                        old(self)@,
                        text_set(known_instances@),
                        times,
                    )
                },
            sound(old(self)@) ==> sound(final(self)@),
    {
        if let Err(e) = self.list(None, None) {
            proof {
                let times = Seq::new(self@.rows.len(), |i: int| 0i64);
                assert(self@ == orphan_effect(self@, text_set(known_instances@), times));
            }
            return Err(e);
        }
        let ghost q = self@;
        let ghost known = text_set(known_instances@);
        let ghost mut times: Seq<i64> = Seq::empty();
        let ghost p = |i: int| is_orphan(q.rows[i], known);
        let mut orphaned: Vec<AgentQueueReceipt> = Vec::new();
        let mut i: usize = 0;
        assert(self@.events =~= q.events + gather(0, p, orphan_event(q, times)));
        assert(receipts_view(orphaned@) =~= gather(0, p, orphan_receipt(q, times)));
        while i < self.rows.len()
            invariant
                i <= self.rows.len(),
                self@.rows.len() == q.rows.len(),
                times.len() == i,
                known == text_set(known_instances@),
                p == (|i: int| is_orphan(q.rows[i], known)),
                forall|j: int|
                    0 <= j < i ==> #[trigger] self@.rows[j] == (if is_orphan(q.rows[j], known) {
                        orphaned_row(q.rows[j], times[j])
                    } else {
                        q.rows[j]
                    }),
                forall|j: int| i <= j < q.rows.len() ==> #[trigger] self@.rows[j] == q.rows[j],
                self@.events == q.events + gather(i as nat, p, orphan_event(q, times)),
                receipts_view(orphaned@) == gather(i as nat, p, orphan_receipt(q, times)),
            decreases self.rows.len() - i,
        {
            assert(self.rows[i as int]@ == self@.rows[i as int]);
            let ghost mut now_ghost: i64 = 0;
            let ghost shown = orphaned@;
            let unsettled: bool = match self.rows[i].known_state() {
                Some(state) => !state.is_terminal(),
                None => false,
            };
            if unsettled && !is_among(known_instances, self.rows[i].instance_id.as_str()) {
                assert(p(i as int));
                let now: i64 = now_ms();
                proof {
                    now_ghost = now;
                }
                let mut row: StoredRow = self.rows[i].clone();
                row.state = stored_name(AgentQueueState::Orphaned);
                row.block_reason = None;
                row.last_error = Some("agent_instance_replaced_or_closed".to_owned());
                row.updated_at_ms = now;
                assert(row@ == orphaned_row(q.rows[i as int], now));
                let updated: AgentQueueReceipt = self.put(i, row, AgentQueueState::Orphaned, now);
                orphaned.push(updated);
                assert(receipts_view(orphaned@) =~= receipts_view(shown).push(updated@));
            } else {
                assert(!p(i as int));
            }
            proof {
                let later = times.push(now_ghost);
                assert forall|j: int| 0 <= j < i implies later[j] == #[trigger] times[j] by {}
                lemma_gather_same(i as nat, p, orphan_event(q, times), orphan_event(q, later));
                lemma_gather_same(i as nat, p, orphan_receipt(q, times), orphan_receipt(q, later));
                assert(self@.events =~= q.events + gather((i + 1) as nat, p, orphan_event(q, later)));
                times = later;
            }
            i = i + 1;
        }
        proof {
            let goal = orphan_effect(q, known, times);
            assert(self@.rows =~= goal.rows);
            lemma_gather_same(
                q.rows.len(),
                p,
                orphan_event(q, times),
                |i: int| event_of(orphaned_row(q.rows[i], times[i]), times[i]),
            );
            lemma_gather_same(
                q.rows.len(),
                p,
                orphan_receipt(q, times),
                |i: int| receipt_of(orphaned_row(q.rows[i], times[i])),
            );
            assert(self@.events =~= goal.events);
            assert(self@ == goal);
            if sound(q) {
                law_soundness_is_kept(q, QueueOp::Orphan { known, times });
            }
        }
        Ok(orphaned)
    }
}

impl QueueStore {
    /// The event log.
    pub fn events(&self) -> (r: &Vec<QueueEvent>)
        ensures
            r@.map_values(|event: QueueEvent| event@) == self@.events,
    {
        &self.events
    }

    /// The row `queue_id`.
    pub fn row(&self, queue_id: &str) -> (r: Option<&StoredRow>)
        ensures
            match first_where(self@.rows, by_id(queue_id@)) {
                Some(i) => r is Some && r->0@ == self@.rows[i],
                None => r is None,
            },
    {
        match self.find_id(queue_id) {
            Some(i) => Some(&self.rows[i]),
            None => None,
        }
    }

    /// The rows, in the order of enqueueing.
    pub fn stored_rows(&self) -> (r: Vec<StoredRow>)
        ensures
            r@.map_values(|row: StoredRow| row@) == self@.rows,
    {
        let mut stored: Vec<StoredRow> = Vec::new();
        let mut i: usize = 0;
        while i < self.rows.len()
            invariant
                i <= self.rows.len(),
                stored@ == self.rows@.take(i as int),
            decreases self.rows.len() - i,
        {
            stored.push(self.rows[i].clone());
            i = i + 1;
            assert(stored@ =~= self.rows@.take(i as int));
        }
        assert(self.rows@.take(self.rows@.len() as int) =~= self.rows@);
        stored
    }

    /// The event log, to be stored.
    pub fn stored_log(&self) -> (r: Vec<QueueEvent>)
        ensures
            r@.map_values(|event: QueueEvent| event@) == self@.events,
    {
        let mut stored: Vec<QueueEvent> = Vec::new();
        let mut i: usize = 0;
        while i < self.events.len()
            invariant
                i <= self.events.len(),
                stored@ == self.events@.take(i as int),
            decreases self.events.len() - i,
        {
            stored.push(self.events[i].clone());
            i = i + 1;
            assert(stored@ =~= self.events@.take(i as int));
        }
        assert(self.events@.take(self.events@.len() as int) =~= self.events@);
        stored
    }
}

impl QueueStore {
    /// What has to be written since the store had `rows` rows and `events` log entries.
    pub fn changes_since(&self, rows: usize, events: usize) -> (c: RowChanges)
        ensures
            c@ == changes(
                self@,
                at_most(rows as nat, self@.rows.len()),
                at_most(events as nat, self@.events.len()),
            ),
            forall|before: QueueModel|
                before.rows.len() == rows && before.events.len() == events && leads(before, self@)
                    ==> #[trigger] written(before, c@) == self@,
    {
        let ghost q = self@;
        let ghost (had_rows, had_events) = (rows, events);
        let rows: usize = if rows <= self.rows.len() {
            rows
        } else {
            self.rows.len()
        };
        let events: usize = if events <= self.events.len() {
            events
        } else {
            self.events.len()
        };
        let ghost new_events = q.events.skip(events as int);
        let ghost p = |i: int| is_logged(new_events, q.rows[i].queue_id);
        let ghost f = |i: int| q.rows[i];
        let mut logged: Vec<QueueEvent> = Vec::new();
        let mut e: usize = events;
        while e < self.events.len()
            invariant
                events <= e <= self.events.len(),
                logged@ == self.events@.subrange(events as int, e as int),
            decreases self.events.len() - e,
        {
            logged.push(self.events[e].clone());
            e = e + 1;
            assert(logged@ =~= self.events@.subrange(events as int, e as int));
        }
        assert(logged@.map_values(|event: QueueEvent| event@) =~= new_events);
        let mut updated: Vec<StoredRow> = Vec::new();
        let mut i: usize = 0;
        while i < rows
            invariant
                i <= rows <= self.rows.len(),
                q == self@,
                p == (|i: int| is_logged(new_events, q.rows[i].queue_id)),
                f == (|i: int| q.rows[i]),
                logged@.map_values(|event: QueueEvent| event@) == new_events,
                updated@.map_values(|row: StoredRow| row@) == gather(i as nat, p, f),
            decreases rows - i,
        {
            let row: &StoredRow = &self.rows[i];
            assert(row@ == q.rows[i as int]);
            let ghost before = updated@;
            let changed: bool = tells_of(&logged, row.queue_id.as_str());
            assert(p(i as int) == changed);
            if changed {
                updated.push(row.clone());
                assert(updated@.map_values(|row: StoredRow| row@) =~= before.map_values(
                    |row: StoredRow| row@,
                ).push(f(i as int)));
            }
            i = i + 1;
        }
        let mut inserted: Vec<StoredRow> = Vec::new();
        let mut k: usize = rows;
        while k < self.rows.len()
            invariant
                rows <= k <= self.rows.len(),
                inserted@ == self.rows@.subrange(rows as int, k as int),
            decreases self.rows.len() - k,
        {
            inserted.push(self.rows[k].clone());
            k = k + 1;
            assert(inserted@ =~= self.rows@.subrange(rows as int, k as int));
        }
        assert(inserted@.map_values(|row: StoredRow| row@) =~= q.rows.skip(rows as int));
        let c: RowChanges = RowChanges { inserted, updated, logged };
        proof {
            assert forall|before: QueueModel|
                before.rows.len() == had_rows && before.events.len() == had_events && leads(
                    before,
                    q,
                ) implies #[trigger] written(before, c@) == q by {
                law_changes_lead_to_the_present(before, q);
            }
        }
        c
    }
}

/// Whether one of `events` is about the row `queue_id`.
fn tells_of(events: &Vec<QueueEvent>, queue_id: &str) -> (r: bool)
    ensures
        r == is_logged(events@.map_values(|event: QueueEvent| event@), queue_id@),
{
    let ghost log = events@.map_values(|event: QueueEvent| event@);
    let mut e: usize = 0;
    while e < events.len()
        invariant
            e <= events.len(),
            log == events@.map_values(|event: QueueEvent| event@),
            forall|j: int| 0 <= j < e ==> (#[trigger] log[j]).queue_id != queue_id@,
        decreases events.len() - e,
    {
        if same_text(events[e].queue_id.as_str(), queue_id) {
            assert(log[e as int].queue_id == queue_id@);
            return true;
        }
        e = e + 1;
    }
    false
}

spec fn orphan_event(q: QueueModel, times: Seq<i64>) -> spec_fn(int) -> EventModel {
    |i: int| event_of(orphaned_row(q.rows[i], times[i]), times[i])
}

spec fn orphan_receipt(q: QueueModel, times: Seq<i64>) -> spec_fn(int) -> ReceiptModel {
    |i: int| receipt_of(orphaned_row(q.rows[i], times[i]))
}

/// Whether `name` is one of `names`.
fn is_among(names: &Vec<String>, name: &str) -> (r: bool)
    ensures
        r == text_set(names@).contains(name@),
{
    let mut i: usize = 0;
    while i < names.len()
        invariant
            i <= names.len(),
            forall|j: int| 0 <= j < i ==> (#[trigger] names@[j])@ != name@,
        decreases names.len() - i,
    {
        if same_text(names[i].as_str(), name) {
            return true;
        }
        i = i + 1;
    }
    false
}

/// The error for an attempt count that cannot be raised.
fn attempts_error() -> (r: StoreError)
    ensures
        r@ == attempts_trouble(),
{
    classify_sqlite_error(
        DatabaseError {
            code: None,
            text: "Invalid column type Real at index: 4, name: attempts".to_owned(),
        },
    )
}

} // verus!
