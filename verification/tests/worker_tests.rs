use kafka_ingest::events::LogEvent;
use kafka_ingest::pipeline::RawRecord;
use kafka_ingest::worker::{keep_running, route_event, WorkerAction, WorkerEvent, SHUTDOWN_GRACE_MS, TICK_MS};

fn some_record() -> RawRecord {
    RawRecord {
        topic: "hello-topic".to_string(),
        partition: 1,
        offset: 5,
        payload: Some(b"hi".to_vec()),
    }
}

#[test]
fn records_route_to_their_own_path() {
    let (action, events) = route_event(WorkerEvent::Default(some_record()));
    assert!(events.is_empty());
    match action {
        WorkerAction::HandleDefault(rec) => assert_eq!(rec.offset, 5),
        _ => panic!("default records take the default path"),
    }
    let (action, events) = route_event(WorkerEvent::Publish(some_record()));
    assert!(events.is_empty());
    assert!(matches!(action, WorkerAction::HandlePublish(_)));
}

#[test]
fn broker_errors_are_logged_and_the_loop_continues() {
    let (action, events) = route_event(WorkerEvent::DefaultError);
    assert!(matches!(action, WorkerAction::Idle));
    assert_eq!(events.len(), 1);
    assert!(matches!(events[0], LogEvent::ReceiveError { publish_path: false }));
    let (action, events) = route_event(WorkerEvent::PublishError);
    assert!(matches!(action, WorkerAction::Idle));
    assert!(matches!(events[0], LogEvent::ReceiveError { publish_path: true }));
}

#[test]
fn ticks_do_nothing() {
    let (action, events) = route_event(WorkerEvent::Tick);
    assert!(matches!(action, WorkerAction::Idle));
    assert!(events.is_empty());
}

#[test]
fn shutdown_stops_pulling_within_one_observation() {
    // Simulate a run: the flag flips to true before the third iteration,
    // and the loop pulls exactly twice.
    let flags = [false, false, true, true, true];
    let mut pulls = 0usize;
    let mut i = 0usize;
    while i < flags.len() && keep_running(flags[i]) {
        pulls += 1;
        i += 1;
    }
    assert_eq!(pulls, 2);
}

#[test]
fn loop_timing_constants() {
    assert_eq!(TICK_MS, 100);
    assert_eq!(SHUTDOWN_GRACE_MS, 1000);
}
