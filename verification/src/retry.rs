//! Bounded-retry persistence and the store's transactional model.
//!
//! Each fully decoded record becomes one row.  An insert attempt is atomic:
//! it either commits the complete row or leaves the store unchanged — the
//! store model can not represent a partial row at all.  A record is tried at
//! most [`MAX_ATTEMPTS`] times with a fixed delay between attempts; decode
//! failures never reach this module, so only transient store failures are
//! ever retried.

use vstd::prelude::*;
use crate::codec::clone_bytes;
use crate::events::{events_view, LogEvent, LogEventView};

verus! {

/// Store attempts per record.
pub const MAX_ATTEMPTS: usize = 3;

/// Fixed delay between two store attempts, in milliseconds.
pub const RETRY_DELAY_MS: u64 = 1000;

/// What a row keeps besides its provenance.
pub enum RowData {
    /// A default-topic record's raw text payload.
    Message { payload: String },
    /// A decoded publish-topic record: data plus optional metadata.
    Published { data: Vec<u8>, metadata: Option<Vec<u8>> },
}

/// Mathematical model of [`RowData`].
#[verifier::ext_equal]
pub enum RowDataView {
    Message { payload: Seq<char> },
    Published { data: Seq<u8>, metadata: Option<Seq<u8>> },
}

impl View for RowData {
    type V = RowDataView;

    open spec fn view(&self) -> RowDataView {
        match self {
            RowData::Message { payload } => RowDataView::Message { payload: payload@ },
            RowData::Published { data, metadata } => RowDataView::Published {
                data: data@,
                metadata: match metadata {
                    None => None,
                    Some(m) => Some(m@),
                },
            },
        }
    }
}

/// One row as it is handed to the store: the record's provenance and its
/// decoded content.  The topic, partition and offset must be exactly those
/// of the record that produced the row.
pub struct StoreRow {
    pub topic: String,
    pub partition: i32,
    pub offset: i64,
    pub data: RowData,
}

/// Mathematical model of a [`StoreRow`].
#[verifier::ext_equal]
pub struct StoreRowView {
    pub topic: Seq<char>,
    pub partition: i32,
    pub offset: i64,
    pub data: RowDataView,
}

impl View for StoreRow {
    type V = StoreRowView;

    open spec fn view(&self) -> StoreRowView {
        StoreRowView {
            topic: self.topic@,
            partition: self.partition,
            offset: self.offset,
            data: self.data@,
        }
    }
}

/// The store's visible state: the rows committed so far, in commit order.
/// Only whole rows ever appear; a failed attempt leaves the log unchanged.
pub struct StoreLog {
    pub rows: Vec<StoreRow>,
}

impl View for StoreLog {
    type V = Seq<StoreRowView>;

    open spec fn view(&self) -> Seq<StoreRowView> {
        self.rows@.map_values(|r: StoreRow| r@)
    }
}

impl StoreLog {
    /// An empty store.
    pub fn new() -> (r: StoreLog)
        ensures
            r@ == Seq::<StoreRowView>::empty(),
    {
        let r = StoreLog { rows: Vec::new() };
        proof {
            assert(r@ =~= Seq::<StoreRowView>::empty());
        }
        r
    }
}

/// Copy a row.
pub fn clone_row(r: &StoreRow) -> (c: StoreRow)
    ensures
        c@ == r@,
{
    let data = match &r.data {
        RowData::Message { payload } => RowData::Message { payload: payload.clone() },
        RowData::Published { data, metadata } => RowData::Published {
            data: clone_bytes(data),
            metadata: match metadata {
                None => None,
                Some(m) => Some(clone_bytes(m)),
            },
        },
    };
    StoreRow { topic: r.topic.clone(), partition: r.partition, offset: r.offset, data }
}

/// What the owner of the retry loop does after one attempt.
#[derive(PartialEq, Eq, Structural, Clone, Copy, Debug)]
pub enum RetryDecision {
    /// The attempt committed; the record is done.
    Done,
    /// The attempt failed and attempts remain: wait the fixed delay, retry.
    RetryAfterDelay,
    /// The last allowed attempt failed: log a terminal failure, drop the
    /// record, move on.
    GiveUp,
}

/// Decide what follows the `attempt`-th store attempt (counting from 1).
pub fn retry_decision(attempt: usize, committed: bool) -> (r: RetryDecision)
    requires
        1 <= attempt <= MAX_ATTEMPTS,
    ensures
        committed ==> r == RetryDecision::Done,
        !committed && attempt < MAX_ATTEMPTS ==> r == RetryDecision::RetryAfterDelay,
        !committed && attempt == MAX_ATTEMPTS ==> r == RetryDecision::GiveUp,
{
    if committed {
        RetryDecision::Done
    } else if attempt < MAX_ATTEMPTS {
        RetryDecision::RetryAfterDelay
    } else {
        RetryDecision::GiveUp
    }
}

/// The index of the first committing attempt among the first `max`
/// outcomes, if any.
pub open spec fn first_commit(outcomes: Seq<bool>, max: nat) -> Option<nat>
    decreases max,
{
    if max == 0 || outcomes.len() == 0 {
        None
    } else if outcomes[0] {
        Some(0nat)
    } else {
        match first_commit(outcomes.skip(1), (max - 1) as nat) {
            None => None,
            Some(i) => Some(i + 1),
        }
    }
}

/// How many attempts a record with the given outcomes consumes.
pub open spec fn retry_attempts(outcomes: Seq<bool>) -> nat {
    match first_commit(outcomes, MAX_ATTEMPTS as nat) {
        Some(i) => i + 1,
        None => MAX_ATTEMPTS as nat,
    }
}

/// The log events of one retried persistence: one failure event per failed
/// attempt, then either a commit or a terminal failure.
pub open spec fn retry_event_seq(outcomes: Seq<bool>) -> Seq<LogEventView> {
    match first_commit(outcomes, MAX_ATTEMPTS as nat) {
        Some(i) => Seq::new(
            i,
            |j: int| LogEventView::StoreAttemptFailed { attempt: (j + 1) as usize },
        ).push(LogEventView::StoreCommitted),
        None => Seq::new(
            MAX_ATTEMPTS as nat,
            |j: int| LogEventView::StoreAttemptFailed { attempt: (j + 1) as usize },
        ).push(LogEventView::StoreAbandoned),
    }
}

/// If the first `i` outcomes fail and the `i`-th commits, the first commit
/// is at `i`.
pub proof fn lemma_first_commit_at(outcomes: Seq<bool>, max: nat, i: nat)
    requires
        i < max,
        i < outcomes.len(),
        outcomes[i as int],
        forall|j: int| 0 <= j < i ==> !outcomes[j],
    ensures
        first_commit(outcomes, max) == Some(i),
    decreases i,
{
    if i > 0 {
        lemma_first_commit_at(outcomes.skip(1), (max - 1) as nat, (i - 1) as nat);
    }
}

/// If every outcome that could be tried fails, no attempt commits.
pub proof fn lemma_first_commit_none(outcomes: Seq<bool>, max: nat)
    requires
        forall|j: int| 0 <= j < max && j < outcomes.len() ==> !outcomes[j],
    ensures
        first_commit(outcomes, max) is None,
    decreases max,
{
    if max > 0 && outcomes.len() > 0 {
        lemma_first_commit_none(outcomes.skip(1), (max - 1) as nat);
    }
}

/// Whichever attempt commits comes within the first `max` tried outcomes.
pub proof fn lemma_first_commit_char(outcomes: Seq<bool>, max: nat)
    ensures
        match first_commit(outcomes, max) {
            Some(i) => i < max && i < outcomes.len() && outcomes[i as int] && forall|j: int|
                0 <= j < i ==> !outcomes[j],
            None => forall|j: int| 0 <= j < max && j < outcomes.len() ==> !outcomes[j],
        },
    decreases max,
{
    if max > 0 && outcomes.len() > 0 && !outcomes[0] {
        let rest = outcomes.skip(1);
        lemma_first_commit_char(rest, (max - 1) as nat);
        match first_commit(rest, (max - 1) as nat) {
            Some(i) => {
                assert(outcomes[i as int + 1] == rest[i as int]);
                assert forall|j: int| 0 <= j < i + 1 implies !outcomes[j] by {
                    if j > 0 {
                        assert(rest[j - 1] == outcomes[j]);
                    }
                }
            },
            None => {
                assert forall|j: int| 0 <= j < max && j < outcomes.len() implies !outcomes[j] by {
                    if j > 0 {
                        assert(rest[j - 1] == outcomes[j]);
                    }
                }
            },
        }
    }
}

/// Persistence is bounded: no record ever consumes more than
/// [`MAX_ATTEMPTS`] attempts, and its event trail holds exactly one failure
/// event per failed attempt followed by a single terminal event.
pub proof fn lemma_retry_bounded(outcomes: Seq<bool>)
    ensures
        retry_attempts(outcomes) <= MAX_ATTEMPTS,
        retry_event_seq(outcomes).len() <= MAX_ATTEMPTS + 1,
{
    lemma_first_commit_char(outcomes, MAX_ATTEMPTS as nat);
    match first_commit(outcomes, MAX_ATTEMPTS as nat) {
        Some(i) => {
            assert(retry_event_seq(outcomes).len() == i + 1);
            assert(retry_attempts(outcomes) == i + 1);
        },
        None => {
            assert(retry_event_seq(outcomes).len() == MAX_ATTEMPTS + 1);
            assert(retry_attempts(outcomes) == MAX_ATTEMPTS as nat);
        },
    }
}

/// Drive one row through the bounded retry loop, with `outcomes[k]` the
/// result of the `k+1`-th attempt.  The store gains exactly the complete
/// row if some tried attempt commits, and nothing at all otherwise; the
/// returned events are the attempt trail.
pub fn run_retries(req: &StoreRow, outcomes: &Vec<bool>, store: &mut StoreLog) -> (r: (
    Vec<LogEvent>,
    bool,
))
    requires
        outcomes@.len() >= MAX_ATTEMPTS,
    ensures
        events_view(r.0@) == retry_event_seq(outcomes@),
        r.1 == (first_commit(outcomes@, MAX_ATTEMPTS as nat) is Some),
        final(store)@ == (match first_commit(outcomes@, MAX_ATTEMPTS as nat) {
            Some(_) => old(store)@.push(req@),
            None => old(store)@,
        }),
{
    let mut events: Vec<LogEvent> = Vec::new();
    let mut attempt: usize = 0;
    while attempt < MAX_ATTEMPTS
        invariant
            attempt <= MAX_ATTEMPTS,
            outcomes@.len() >= MAX_ATTEMPTS,
            forall|j: int| 0 <= j < attempt ==> !outcomes@[j],
            events_view(events@) =~= Seq::new(
                attempt as nat,
                |j: int| LogEventView::StoreAttemptFailed { attempt: (j + 1) as usize },
            ),
            store == old(store),
        decreases MAX_ATTEMPTS - attempt,
    {
        let ghost evs0 = events@;
        let ok = outcomes[attempt];
        if ok {
            proof {
                lemma_first_commit_at(outcomes@, MAX_ATTEMPTS as nat, attempt as nat);
            }
            store.rows.push(clone_row(req));
            events.push(LogEvent::StoreCommitted);
            proof {
                assert(store@ =~= old(store)@.push(req@));
                assert(events_view(events@) =~= events_view(evs0).push(
                    LogEventView::StoreCommitted,
                ));
                assert(events_view(events@) =~= retry_event_seq(outcomes@));
            }
            return (events, true);
        }
        events.push(LogEvent::StoreAttemptFailed { attempt: attempt + 1 });
        proof {
            assert(events_view(events@) =~= events_view(evs0).push(
                LogEventView::StoreAttemptFailed { attempt: (attempt + 1) as usize },
            ));
            assert(events_view(events@) =~= Seq::new(
                (attempt + 1) as nat,
                |j: int| LogEventView::StoreAttemptFailed { attempt: (j + 1) as usize },
            ));
        }
        attempt = attempt + 1;
    }
    proof {
        lemma_first_commit_none(outcomes@, MAX_ATTEMPTS as nat);
    }
    events.push(LogEvent::StoreAbandoned);
    proof {
        assert(events_view(events@) =~= retry_event_seq(outcomes@));
    }
    (events, false)
}

} // verus!
