//! The pipeline's observable log events.
//!
//! Every decision the pipeline takes per record surfaces as one of these
//! events; the host process turns them into log lines.  Modelling them as
//! values lets the contracts state exactly which events each record
//! produces.

use vstd::prelude::*;

verus! {

/// One log event emitted while handling a record.
pub enum LogEvent {
    /// The broker client reported an error instead of a record.
    ReceiveError { publish_path: bool },
    /// A record arrived without a payload.
    EmptyPayload { publish_path: bool },
    /// A default-topic payload was handled as plain text.
    RawText { payload: String },
    /// A default-topic payload parsed as a structured greeting.
    Greeting { name: String, timestamp: String },
    /// A publish-topic payload was not a well-formed envelope.
    EnvelopeMalformed,
    /// An envelope carried an unrecognised type tag.
    UnknownMessageType { message_type: Vec<u8> },
    /// An envelope's inner payload was not a well-formed typed payload.
    InnerPayloadMalformed,
    /// One store attempt failed (attempts count from 1).
    StoreAttemptFailed { attempt: usize },
    /// A store attempt committed the record's row.
    StoreCommitted,
    /// Every store attempt failed; the record was dropped.
    StoreAbandoned,
}

/// Mathematical model of a [`LogEvent`].
#[verifier::ext_equal]
pub enum LogEventView {
    ReceiveError { publish_path: bool },
    EmptyPayload { publish_path: bool },
    RawText { payload: Seq<char> },
    Greeting { name: Seq<char>, timestamp: Seq<char> },
    EnvelopeMalformed,
    UnknownMessageType { message_type: Seq<u8> },
    InnerPayloadMalformed,
    StoreAttemptFailed { attempt: usize },
    StoreCommitted,
    StoreAbandoned,
}

impl View for LogEvent {
    type V = LogEventView;

    open spec fn view(&self) -> LogEventView {
        match self {
            LogEvent::ReceiveError { publish_path } => LogEventView::ReceiveError {
                publish_path: *publish_path,
            },
            LogEvent::EmptyPayload { publish_path } => LogEventView::EmptyPayload {
                publish_path: *publish_path,
            },
            LogEvent::RawText { payload } => LogEventView::RawText { payload: payload@ },
            LogEvent::Greeting { name, timestamp } => LogEventView::Greeting {
                name: name@,
                timestamp: timestamp@,
            },
            LogEvent::EnvelopeMalformed => LogEventView::EnvelopeMalformed,
            LogEvent::UnknownMessageType { message_type } => LogEventView::UnknownMessageType {
                message_type: message_type@,
            },
            LogEvent::InnerPayloadMalformed => LogEventView::InnerPayloadMalformed,
            LogEvent::StoreAttemptFailed { attempt } => LogEventView::StoreAttemptFailed {
                attempt: *attempt,
            },
            LogEvent::StoreCommitted => LogEventView::StoreCommitted,
            LogEvent::StoreAbandoned => LogEventView::StoreAbandoned,
        }
    }
}

/// The models of a sequence of log events.
pub open spec fn events_view(s: Seq<LogEvent>) -> Seq<LogEventView> {
    s.map_values(|ev: LogEvent| ev@)
}

} // verus!
