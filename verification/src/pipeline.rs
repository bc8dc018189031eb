//! Per-record processing: the decode chain, dispatch rules and store
//! effects for both topics.
//!
//! A default-topic record is persisted as raw text under bounded retry and
//! then classified for observability.  A publish-topic record runs the
//! two-step decode chain — envelope, type tag, typed inner payload — and
//! only a fully decoded record reaches the store; every decode failure is
//! permanent and is dropped without any store attempt or retry, while store
//! failures are transient and retried.

use vstd::prelude::*;
use crate::classify::{
    bytes_eq,
    classify_default_payload,
    lossy_text_of,
    payload_text,
    spec_classify_text,
};
use crate::codec::{
    decode_envelope,
    decode_publish_request,
    published_message_type,
    published_message_type_bytes,
    spec_decode_envelope,
    spec_decode_publish_request,
    PublishRequest,
    PublishRequestView,
};
use crate::events::{events_view, LogEvent, LogEventView};
use crate::retry::{
    first_commit,
    retry_event_seq,
    run_retries,
    RowData,
    RowDataView,
    StoreLog,
    StoreRow,
    StoreRowView,
    MAX_ATTEMPTS,
};

verus! {

/// One record as the broker hands it over: its provenance and, when the
/// broker delivered one, its payload.
pub struct RawRecord {
    pub topic: String,
    pub partition: i32,
    pub offset: i64,
    pub payload: Option<Vec<u8>>,
}

/// Mathematical model of a [`RawRecord`].
#[verifier::ext_equal]
pub struct RawRecordView {
    pub topic: Seq<char>,
    pub partition: i32,
    pub offset: i64,
    pub payload: Option<Seq<u8>>,
}

impl View for RawRecord {
    type V = RawRecordView;

    open spec fn view(&self) -> RawRecordView {
        RawRecordView {
            topic: self.topic@,
            partition: self.partition,
            offset: self.offset,
            payload: match &self.payload {
                None => None,
                Some(p) => Some(p@),
            },
        }
    }
}

/// The row a default-topic record contributes: its provenance and its
/// payload rendered as text.
pub open spec fn message_row(rec: RawRecordView, text: Seq<char>) -> StoreRowView {
    StoreRowView {
        topic: rec.topic,
        partition: rec.partition,
        offset: rec.offset,
        data: RowDataView::Message { payload: text },
    }
}

/// The row a fully decoded publish-topic record contributes: its provenance
/// and the inner payload's fields, with empty metadata stored as absent.
pub open spec fn published_row(rec: RawRecordView, pr: PublishRequestView) -> StoreRowView {
    StoreRowView {
        topic: rec.topic,
        partition: rec.partition,
        offset: rec.offset,
        data: RowDataView::Published {
            data: pr.data,
            metadata: if pr.metadata.len() == 0 {
                None
            } else {
                Some(pr.metadata)
            },
        },
    }
}

/// The typed inner payload a publish-topic payload decodes to, if the whole
/// chain succeeds: envelope, recognised type tag, inner payload.
pub open spec fn spec_publish_decoded(payload: Seq<u8>) -> Option<PublishRequestView> {
    match spec_decode_envelope(payload) {
        None => None,
        Some(env) => if env.message_type == published_message_type() {
            spec_decode_publish_request(env.payload)
        } else {
            None
        },
    }
}

/// The events the default path produces: the retry trail of persisting the
/// raw text, then — only after a commit — the classification event.
pub open spec fn spec_default_events(payload: Option<Seq<u8>>, outcomes: Seq<bool>) -> Seq<
    LogEventView,
> {
    match payload {
        None => Seq::empty(),
        Some(p) => if first_commit(outcomes, MAX_ATTEMPTS as nat) is Some {
            retry_event_seq(outcomes).push(spec_classify_text(lossy_text_of(p)))
        } else {
            retry_event_seq(outcomes)
        },
    }
}

/// The events the publish path produces: one drop event for each way the
/// decode chain can fail, and the retry trail when it succeeds.
pub open spec fn spec_publish_events(payload: Option<Seq<u8>>, outcomes: Seq<bool>) -> Seq<
    LogEventView,
> {
    match payload {
        None => seq![LogEventView::EmptyPayload { publish_path: true }],
        Some(p) => match spec_decode_envelope(p) {
            None => seq![LogEventView::EnvelopeMalformed],
            Some(env) => if env.message_type != published_message_type() {
                seq![LogEventView::UnknownMessageType { message_type: env.message_type }]
            } else {
                match spec_decode_publish_request(env.payload) {
                    None => seq![LogEventView::InnerPayloadMalformed],
                    Some(_) => retry_event_seq(outcomes),
                }
            },
        },
    }
}

/// Handle one default-topic record: persist its text under bounded retry
/// and, when a store attempt commits, classify it.  `outcomes[k]` is what
/// the store will answer the `k+1`-th attempt.
pub fn process_default_record(rec: &RawRecord, outcomes: &Vec<bool>, store: &mut StoreLog) -> (events: Vec<
    LogEvent,
>)
    requires
        outcomes@.len() >= MAX_ATTEMPTS,
    ensures
        events_view(events@) == spec_default_events(rec@.payload, outcomes@),
        final(store)@ == (match rec@.payload {
            Some(p) => if first_commit(outcomes@, MAX_ATTEMPTS as nat) is Some {
                old(store)@.push(message_row(rec@, lossy_text_of(p)))
            } else {
                old(store)@
            },
            None => old(store)@,
        }),
{
    let payload = match &rec.payload {
        None => {
            let events: Vec<LogEvent> = Vec::new();
            proof {
                assert(events_view(events@) =~= spec_default_events(rec@.payload, outcomes@));
            }
            return events;
        },
        Some(p) => p,
    };
    let text = payload_text(payload);
    let row = StoreRow {
        topic: rec.topic.clone(),
        partition: rec.partition,
        offset: rec.offset,
        data: RowData::Message { payload: text },
    };
    let (mut events, committed) = run_retries(&row, outcomes, store);
    proof {
        assert(row@ == message_row(rec@, lossy_text_of(payload@)));
    }
    if committed {
        let ghost evs0 = events@;
        let ev = classify_default_payload(payload);
        events.push(ev);
        proof {
            assert(events_view(events@) =~= events_view(evs0).push(ev@));
        }
    }
    events
}

/// Why a publish-topic payload is dropped without any store attempt.
pub enum PublishDrop {
    /// The payload is no well-formed envelope.
    EnvelopeMalformed,
    /// The envelope's type tag (returned here) is not the recognised one.
    UnknownMessageType { message_type: Vec<u8> },
    /// The envelope's inner bytes are no well-formed typed payload.
    InnerPayloadMalformed,
}

/// Run the publish-topic decode chain alone: envelope, type tag, typed
/// inner payload.  Succeeds exactly when the whole chain does, and
/// otherwise says which step dropped the record; every failure is
/// permanent, so the caller never retries one.
pub fn decode_publish_chain(payload: &Vec<u8>) -> (r: Result<PublishRequest, PublishDrop>)
    ensures
        match r {
            Ok(pr) => spec_publish_decoded(payload@) == Some(pr@),
            Err(d) => spec_publish_decoded(payload@) is None && (match d {
                PublishDrop::EnvelopeMalformed => spec_decode_envelope(payload@) is None,
                PublishDrop::UnknownMessageType { message_type } => spec_decode_envelope(payload@)
                    matches Some(env) && env.message_type == message_type@ && env.message_type
                    != published_message_type(),
                PublishDrop::InnerPayloadMalformed => spec_decode_envelope(payload@)
                    matches Some(env) && env.message_type == published_message_type()
                    && spec_decode_publish_request(env.payload) is None,
            }),
        },
{
    let env = match decode_envelope(payload) {
        None => { return Err(PublishDrop::EnvelopeMalformed) },
        Some(e) => e,
    };
    let expected = published_message_type_bytes();
    if !bytes_eq(&env.message_type, &expected) {
        return Err(PublishDrop::UnknownMessageType { message_type: env.message_type });
    }
    match decode_publish_request(&env.payload) {
        None => Err(PublishDrop::InnerPayloadMalformed),
        Some(pr) => Ok(pr),
    }
}

/// Handle one publish-topic record: run the decode chain and, when it fully
/// succeeds, persist the decoded payload under bounded retry.  `outcomes`
/// is read only if a store attempt is made.
pub fn process_publish_record(rec: &RawRecord, outcomes: &Vec<bool>, store: &mut StoreLog) -> (events: Vec<
    LogEvent,
>)
    requires
        outcomes@.len() >= MAX_ATTEMPTS,
    ensures
        events_view(events@) == spec_publish_events(rec@.payload, outcomes@),
        final(store)@ == (match rec@.payload {
            Some(p) => match spec_publish_decoded(p) {
                Some(pr) => if first_commit(outcomes@, MAX_ATTEMPTS as nat) is Some {
                    old(store)@.push(published_row(rec@, pr))
                } else {
                    old(store)@
                },
                None => old(store)@,
            },
            None => old(store)@,
        }),
{
    let payload = match &rec.payload {
        None => {
            let mut events: Vec<LogEvent> = Vec::new();
            events.push(LogEvent::EmptyPayload { publish_path: true });
            proof {
                assert(events_view(events@) =~= spec_publish_events(rec@.payload, outcomes@));
            }
            return events;
        },
        Some(p) => p,
    };
    let pr = match decode_publish_chain(payload) {
        Err(d) => {
            let mut events: Vec<LogEvent> = Vec::new();
            let ev = match d {
                PublishDrop::EnvelopeMalformed => LogEvent::EnvelopeMalformed,
                PublishDrop::UnknownMessageType { message_type } => LogEvent::UnknownMessageType {
                    message_type,
                },
                PublishDrop::InnerPayloadMalformed => LogEvent::InnerPayloadMalformed,
            };
            events.push(ev);
            proof {
                assert(events_view(events@) =~= spec_publish_events(rec@.payload, outcomes@));
            }
            return events;
        },
        Ok(p) => p,
    };
    let metadata = if pr.metadata.len() == 0 {
        None
    } else {
        Some(pr.metadata)
    };
    let row = StoreRow {
        topic: rec.topic.clone(),
        partition: rec.partition,
        offset: rec.offset,
        data: RowData::Published { data: pr.data, metadata },
    };
    proof {
        assert(row@ == published_row(rec@, spec_publish_decoded(rec@.payload->Some_0)->Some_0));
    }
    let (events, _committed) = run_retries(&row, outcomes, store);
    events
}

// ---------------------------------------------------------------------------
// Dispatch laws: decode failures are permanent and never reach the store.
// ---------------------------------------------------------------------------

/// Every row carries the provenance of exactly the record that produced it:
/// topic, partition and offset pass through both paths unchanged.
pub proof fn lemma_row_provenance(rec: RawRecordView, text: Seq<char>, pr: PublishRequestView)
    ensures
        message_row(rec, text).topic == rec.topic,
        message_row(rec, text).partition == rec.partition,
        message_row(rec, text).offset == rec.offset,
        published_row(rec, pr).topic == rec.topic,
        published_row(rec, pr).partition == rec.partition,
        published_row(rec, pr).offset == rec.offset,
{
}

/// The default path never reports an error: once its row is committed, the
/// record is always logged — as a structured greeting when its text parses
/// as one, and at minimum as the raw text itself.
pub proof fn lemma_default_path_always_logs(p: Seq<u8>, outcomes: Seq<bool>)
    requires
        first_commit(outcomes, MAX_ATTEMPTS as nat) is Some,
    ensures
        spec_default_events(Some(p), outcomes).len() > 0,
        spec_default_events(Some(p), outcomes).last() is Greeting || spec_default_events(
            Some(p),
            outcomes,
        ).last() is RawText,
{
    crate::classify::lemma_default_classification_total(lossy_text_of(p));
}

/// An envelope whose type tag is not the recognised constant is dropped
/// with a single warning event: no store attempt, no retry, whatever the
/// store would have answered.
pub proof fn lemma_unknown_type_no_store(payload: Seq<u8>, outcomes: Seq<bool>)
    requires
        spec_decode_envelope(payload) matches Some(env) && env.message_type
            != published_message_type(),
    ensures
        spec_publish_decoded(payload) is None,
        spec_publish_events(Some(payload), outcomes) == seq![
            LogEventView::UnknownMessageType {
                message_type: spec_decode_envelope(payload)->Some_0.message_type,
            },
        ],
{
}

/// A payload that is no well-formed envelope is dropped with a single
/// error event: no store attempt, no retry, whatever the store would have
/// answered.
pub proof fn lemma_malformed_envelope_no_store(payload: Seq<u8>, outcomes: Seq<bool>)
    requires
        spec_decode_envelope(payload) is None,
    ensures
        spec_publish_decoded(payload) is None,
        spec_publish_events(Some(payload), outcomes) == seq![LogEventView::EnvelopeMalformed],
{
}

/// A well-typed envelope whose inner bytes are no well-formed typed payload
/// is likewise dropped with a single error event.
pub proof fn lemma_malformed_inner_no_store(payload: Seq<u8>, outcomes: Seq<bool>)
    requires
        spec_decode_envelope(payload) matches Some(env) && env.message_type
            == published_message_type() && spec_decode_publish_request(env.payload) is None,
    ensures
        spec_publish_decoded(payload) is None,
        spec_publish_events(Some(payload), outcomes) == seq![LogEventView::InnerPayloadMalformed],
{
}

} // verus!
