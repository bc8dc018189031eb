use kafka_ingest::config::{derive_publish_group_id, ConsumerConfig, DatabaseSettings, ServerConfig};
use kafka_ingest::retry::{retry_decision, RetryDecision, MAX_ATTEMPTS, RETRY_DELAY_MS};
use kafka_ingest::strings::u16_to_decimal;

fn settings() -> DatabaseSettings {
    DatabaseSettings {
        host: "localhost".to_string(),
        port: 5432,
        user: "app".to_string(),
        password: "pw".to_string(),
        dbname: "appdb".to_string(),
        pool_size: 16,
    }
}

#[test]
fn connection_string_is_exact() {
    assert_eq!(settings().connection_string(), "postgres://app:pw@localhost:5432/appdb");
}

#[test]
fn decimal_rendering_is_exact() {
    assert_eq!(u16_to_decimal(0), "0");
    assert_eq!(u16_to_decimal(7), "7");
    assert_eq!(u16_to_decimal(100), "100");
    assert_eq!(u16_to_decimal(5432), "5432");
    assert_eq!(u16_to_decimal(u16::MAX), "65535");
}

#[test]
fn publish_group_id_gets_the_fixed_suffix() {
    assert_eq!(derive_publish_group_id("hello-group"), "hello-group-publish");
    assert_eq!(derive_publish_group_id(""), "-publish");
}

#[test]
fn configs_carry_their_fields() {
    let consumer = ConsumerConfig {
        kafka_broker: "localhost:9092".to_string(),
        group_id: "hello-group".to_string(),
        topic: "hello-topic".to_string(),
        publish_topic: "publish-topic".to_string(),
        database: settings(),
    };
    assert_eq!(consumer.database.pool_size, 16);
    let server = ServerConfig {
        kafka_broker: "localhost:9092".to_string(),
        topic: "hello-topic".to_string(),
        publish_topic: "publish-topic".to_string(),
        database: settings(),
    };
    assert_eq!(server.topic, "hello-topic");
}

#[test]
fn retry_policy_constants() {
    assert_eq!(MAX_ATTEMPTS, 3);
    assert_eq!(RETRY_DELAY_MS, 1000);
}

#[test]
fn retry_decisions_follow_the_policy() {
    assert_eq!(retry_decision(1, true), RetryDecision::Done);
    assert_eq!(retry_decision(2, true), RetryDecision::Done);
    assert_eq!(retry_decision(1, false), RetryDecision::RetryAfterDelay);
    assert_eq!(retry_decision(2, false), RetryDecision::RetryAfterDelay);
    assert_eq!(retry_decision(3, false), RetryDecision::GiveUp);
}
