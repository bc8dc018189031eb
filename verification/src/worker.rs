//! The dual-stream consumer loop's control decisions.
//!
//! Each iteration first observes the shutdown flag; only while it is clear
//! does the loop race the two subscriptions against a fixed tick and handle
//! whichever arrives first.  A broker error on either subscription is
//! logged and the loop continues; the tick exists only so the flag is
//! re-checked at a bounded interval.  On observing the flag the loop pulls
//! nothing further, releases its subscriptions and returns after one fixed
//! grace delay.

use vstd::prelude::*;
use crate::events::{LogEvent, LogEventView};
use crate::pipeline::{RawRecord, RawRecordView};

verus! {

/// Interval at which the loop re-checks the shutdown flag, in milliseconds.
pub const TICK_MS: u64 = 100;

/// Fixed delay between observing shutdown and returning, in milliseconds.
pub const SHUTDOWN_GRACE_MS: u64 = 1000;

/// What one loop iteration's race can yield.
pub enum WorkerEvent {
    /// A record arrived on the default subscription.
    Default(RawRecord),
    /// A record arrived on the publish subscription.
    Publish(RawRecord),
    /// The default subscription reported a broker error.
    DefaultError,
    /// The publish subscription reported a broker error.
    PublishError,
    /// Neither subscription resolved within the tick.
    Tick,
}

/// Mathematical model of a [`WorkerEvent`].
#[verifier::ext_equal]
pub enum WorkerEventView {
    Default(RawRecordView),
    Publish(RawRecordView),
    DefaultError,
    PublishError,
    Tick,
}

impl View for WorkerEvent {
    type V = WorkerEventView;

    open spec fn view(&self) -> WorkerEventView {
        match self {
            WorkerEvent::Default(r) => WorkerEventView::Default(r@),
            WorkerEvent::Publish(r) => WorkerEventView::Publish(r@),
            WorkerEvent::DefaultError => WorkerEventView::DefaultError,
            WorkerEvent::PublishError => WorkerEventView::PublishError,
            WorkerEvent::Tick => WorkerEventView::Tick,
        }
    }
}

/// What the loop does with one event.
pub enum WorkerAction {
    /// Run the record through the default-topic path.
    HandleDefault(RawRecord),
    /// Run the record through the publish-topic path.
    HandlePublish(RawRecord),
    /// Nothing to do this iteration.
    Idle,
}

/// Mathematical model of a [`WorkerAction`].
#[verifier::ext_equal]
pub enum WorkerActionView {
    HandleDefault(RawRecordView),
    HandlePublish(RawRecordView),
    Idle,
}

impl View for WorkerAction {
    type V = WorkerActionView;

    open spec fn view(&self) -> WorkerActionView {
        match self {
            WorkerAction::HandleDefault(r) => WorkerActionView::HandleDefault(r@),
            WorkerAction::HandlePublish(r) => WorkerActionView::HandlePublish(r@),
            WorkerAction::Idle => WorkerActionView::Idle,
        }
    }
}

/// The action an event maps to, and the events logged on the way.
pub open spec fn spec_route(ev: WorkerEventView) -> (WorkerActionView, Seq<LogEventView>) {
    match ev {
        WorkerEventView::Default(r) => (WorkerActionView::HandleDefault(r), Seq::empty()),
        WorkerEventView::Publish(r) => (WorkerActionView::HandlePublish(r), Seq::empty()),
        WorkerEventView::DefaultError => (
            WorkerActionView::Idle,
            seq![LogEventView::ReceiveError { publish_path: false }],
        ),
        WorkerEventView::PublishError => (
            WorkerActionView::Idle,
            seq![LogEventView::ReceiveError { publish_path: true }],
        ),
        WorkerEventView::Tick => (WorkerActionView::Idle, Seq::empty()),
    }
}

/// Decide at an iteration boundary whether to pull more work: the loop
/// continues exactly while no shutdown has been requested.
pub fn keep_running(shutdown_requested: bool) -> (r: bool)
    ensures
        r == !shutdown_requested,
{
    !shutdown_requested
}

/// Route one iteration's event to its action.  A record is handled on the
/// path of the subscription it came from; a broker error is logged and the
/// loop goes on; a tick does nothing.  No event ends the loop.
pub fn route_event(ev: WorkerEvent) -> (r: (WorkerAction, Vec<LogEvent>))
    ensures
        (r.0@, crate::events::events_view(r.1@)) == spec_route(ev@),
{
    match ev {
        WorkerEvent::Default(rec) => {
            let events: Vec<LogEvent> = Vec::new();
            proof {
                assert(crate::events::events_view(events@) =~= Seq::<LogEventView>::empty());
            }
            (WorkerAction::HandleDefault(rec), events)
        },
        WorkerEvent::Publish(rec) => {
            let events: Vec<LogEvent> = Vec::new();
            proof {
                assert(crate::events::events_view(events@) =~= Seq::<LogEventView>::empty());
            }
            (WorkerAction::HandlePublish(rec), events)
        },
        WorkerEvent::DefaultError => {
            let mut events: Vec<LogEvent> = Vec::new();
            events.push(LogEvent::ReceiveError { publish_path: false });
            proof {
                assert(crate::events::events_view(events@) =~= seq![
                    LogEventView::ReceiveError { publish_path: false },
                ]);
            }
            (WorkerAction::Idle, events)
        },
        WorkerEvent::PublishError => {
            let mut events: Vec<LogEvent> = Vec::new();
            events.push(LogEvent::ReceiveError { publish_path: true });
            proof {
                assert(crate::events::events_view(events@) =~= seq![
                    LogEventView::ReceiveError { publish_path: true },
                ]);
            }
            (WorkerAction::Idle, events)
        },
        WorkerEvent::Tick => {
            let events: Vec<LogEvent> = Vec::new();
            proof {
                assert(crate::events::events_view(events@) =~= Seq::<LogEventView>::empty());
            }
            (WorkerAction::Idle, events)
        },
    }
}

/// How many iterations of a run pull work, when `flags[i]` is the shutdown
/// flag's value observed at the start of iteration `i`: the loop races its
/// sources once per iteration until the first observation of the flag.
pub open spec fn worker_pulls(flags: Seq<bool>) -> nat
    decreases flags.len(),
{
    if flags.len() == 0 {
        0
    } else if flags[0] {
        0
    } else {
        1 + worker_pulls(flags.skip(1))
    }
}

/// Once the shutdown flag is set the worker stops pulling: if the flag is
/// observed at iteration `i`, the whole run pulls at most `i` times — the
/// iteration that sees the flag, and every later one, pulls nothing.
pub proof fn lemma_shutdown_stops_pulls(flags: Seq<bool>, i: int)
    requires
        0 <= i < flags.len(),
        flags[i],
    ensures
        worker_pulls(flags) <= i,
    decreases i,
{
    if i > 0 && !flags[0] {
        lemma_shutdown_stops_pulls(flags.skip(1), i - 1);
    }
}

} // verus!
