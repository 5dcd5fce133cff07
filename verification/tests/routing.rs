//! Topic classification and end-to-end message handling.

use mqtt_gateway::clock::TimeOfDay;
use mqtt_gateway::config::{MqttClientConfig, MqttClientConfigs};
use mqtt_gateway::mqtt_manager::{MqttManager, RouterReport};
use mqtt_gateway::payload::PayloadError;
use mqtt_gateway::router::{classify, Route};

fn config(name: &str) -> MqttClientConfig {
    MqttClientConfig {
        name: name.to_string(),
        address: "tcp://localhost:1883".to_string(),
        port: 1883,
        user: "user".to_string(),
        password: "pass".to_string(),
    }
}

fn manager_with(names: &[&str]) -> MqttManager {
    let mut m = MqttManager::new();
    let configs = MqttClientConfigs {
        mqtt_clients: names.iter().map(|n| config(n)).collect(),
    };
    m.add_clients_from_config(configs).unwrap();
    m
}

fn noon() -> TimeOfDay {
    TimeOfDay { hour: 12, minute: 0, second: 0 }
}

#[test]
fn classify_sensor_topics() {
    assert_eq!(classify("sensor/temperature/room1", "23.5#s1"), Route::SensorIngest);
    assert_eq!(classify("sensor/temperature", "x"), Route::SensorIngest);
}

#[test]
fn classify_snapshot_commands() {
    assert_eq!(classify("datalogger/temperature/command", "get"), Route::SnapshotGet);
    assert_eq!(
        classify("datalogger/temperature/command", "get_valid"),
        Route::SnapshotGetValid
    );
    assert_eq!(
        classify("datalogger/temperature/command", "fetch"),
        Route::SnapshotUnknownCommand
    );
}

#[test]
fn classify_ping_commands() {
    assert_eq!(classify("datalogger/command", "ping"), Route::Ping);
    assert_eq!(classify("datalogger/command", "pong"), Route::PingUnknownCommand);
}

#[test]
fn classify_unknown_topics_by_payload_length() {
    let short = "a".repeat(49);
    let long = "a".repeat(50);
    assert_eq!(classify("some/other/topic", &short), Route::UnknownTopicShort);
    assert_eq!(classify("some/other/topic", &long), Route::UnknownTopicLong);
    assert_eq!(classify("", ""), Route::UnknownTopicShort);
}

#[test]
fn scenario_ingest_updates_store_and_records_once() {
    // One broker; "23.5#sensor1" on sensor/temperature/room1: the store
    // reports {sensor1: 23.5} and exactly one persistence call is queued.
    let mut m = manager_with(&["client1"]);
    let outcome = m.received_mqtt_message_at(
        "client1".to_string(),
        "sensor/temperature/room1".to_string(),
        "23.5#sensor1".to_string(),
        "gateway",
        noon(),
    );
    assert_eq!(outcome.report, RouterReport::Ingested);
    assert!(outcome.publishes.is_empty());
    assert_eq!(outcome.records.len(), 1);
    assert_eq!(outcome.records[0].client_id, "client1");
    assert_eq!(outcome.records[0].sensor_id, "sensor1");
    assert_eq!(outcome.records[0].value, "23.5");
    let sensors = m.clients[0].sensor_manager.get_sensors();
    assert_eq!(sensors.len(), 1);
    assert_eq!(sensors[0].get_encoded_string(), "23.5#sensor1#12:00:00");
}

#[test]
fn scenario_get_publishes_encoded_snapshot() {
    // After the ingest, "get" on datalogger/temperature/command yields
    // exactly one outbound publish with the encoded reading.
    let mut m = manager_with(&["client1"]);
    m.received_mqtt_message_at(
        "client1".to_string(),
        "sensor/temperature/room1".to_string(),
        "23.5#sensor1".to_string(),
        "gateway",
        noon(),
    );
    let outcome = m.received_mqtt_message_at(
        "client1".to_string(),
        "datalogger/temperature/command".to_string(),
        "get".to_string(),
        "gateway",
        noon(),
    );
    assert_eq!(outcome.report, RouterReport::SnapshotSent);
    assert!(outcome.records.is_empty());
    assert_eq!(outcome.publishes.len(), 1);
    assert_eq!(outcome.publishes[0].topic, "datalogger/sensor/temperature/room1");
    assert_eq!(outcome.publishes[0].payload, "23.5#sensor1#12:00:00");
    assert_eq!(outcome.publishes[0].qos, 1);
}

#[test]
fn scenario_get_on_empty_store_publishes_nothing() {
    let mut m = manager_with(&["client1"]);
    let outcome = m.received_mqtt_message_at(
        "client1".to_string(),
        "datalogger/temperature/command".to_string(),
        "get".to_string(),
        "gateway",
        noon(),
    );
    assert_eq!(outcome.report, RouterReport::SnapshotSent);
    assert!(outcome.publishes.is_empty());
    assert!(outcome.records.is_empty());
}

#[test]
fn scenario_ping_publishes_one_ack_with_gateway_name() {
    let mut m = manager_with(&["client1"]);
    let outcome = m.received_mqtt_message_at(
        "client1".to_string(),
        "datalogger/command".to_string(),
        "ping".to_string(),
        "gateway-7",
        noon(),
    );
    assert_eq!(outcome.report, RouterReport::PingAcked);
    assert!(outcome.records.is_empty());
    assert_eq!(outcome.publishes.len(), 1);
    assert_eq!(outcome.publishes[0].topic, "datalogger/ping/ack");
    assert_eq!(outcome.publishes[0].payload, "gateway-7");
    assert_eq!(outcome.publishes[0].qos, 1);
}

#[test]
fn malformed_payload_is_dropped_without_store_change() {
    let mut m = manager_with(&["client1"]);
    for (payload, err) in [
        ("abc#sensor1", PayloadError::InvalidValue),
        ("1.5", PayloadError::MissingDelimiter),
        ("1#2#3", PayloadError::ExtraDelimiter),
    ] {
        let outcome = m.received_mqtt_message_at(
            "client1".to_string(),
            "sensor/temperature/room1".to_string(),
            payload.to_string(),
            "gateway",
            noon(),
        );
        assert_eq!(outcome.report, RouterReport::MalformedPayload(err));
        assert!(outcome.publishes.is_empty());
        assert!(outcome.records.is_empty());
    }
    assert!(m.clients[0].sensor_manager.get_sensors().is_empty());
}

#[test]
fn unknown_topic_never_mutates_the_store() {
    let mut m = manager_with(&["client1"]);
    let outcome = m.received_mqtt_message_at(
        "client1".to_string(),
        "weather/forecast".to_string(),
        "sunny".to_string(),
        "gateway",
        noon(),
    );
    assert_eq!(outcome.report, RouterReport::UnknownTopicShort);
    assert!(outcome.publishes.is_empty());
    assert!(outcome.records.is_empty());
    let outcome = m.received_mqtt_message_at(
        "client1".to_string(),
        "weather/forecast".to_string(),
        "x".repeat(80),
        "gateway",
        noon(),
    );
    assert_eq!(outcome.report, RouterReport::UnknownTopicLong);
    assert!(m.clients[0].sensor_manager.get_sensors().is_empty());
}

#[test]
fn unknown_commands_are_reported() {
    let mut m = manager_with(&["client1"]);
    let outcome = m.received_mqtt_message_at(
        "client1".to_string(),
        "datalogger/temperature/command".to_string(),
        "get_valid".to_string(),
        "gateway",
        noon(),
    );
    assert_eq!(outcome.report, RouterReport::GetValidNotImplemented);
    let outcome = m.received_mqtt_message_at(
        "client1".to_string(),
        "datalogger/command".to_string(),
        "hello".to_string(),
        "gateway",
        noon(),
    );
    assert_eq!(outcome.report, RouterReport::UnknownCommand);
}

#[test]
fn ingest_is_partitioned_by_client() {
    let mut m = manager_with(&["c1", "c2"]);
    m.received_mqtt_message_at(
        "c2".to_string(),
        "sensor/temperature/room1".to_string(),
        "5#s".to_string(),
        "gateway",
        noon(),
    );
    assert!(m.clients[0].sensor_manager.get_sensors().is_empty());
    assert_eq!(m.clients[1].sensor_manager.get_sensors().len(), 1);
}

#[test]
fn ambient_message_handling_stamps_the_clock() {
    let mut m = manager_with(&["client1"]);
    let outcome = m.received_mqtt_message(
        "client1".to_string(),
        "sensor/temperature/room1".to_string(),
        "23.5#sensor1".to_string(),
        "gateway",
    );
    assert_eq!(outcome.report, RouterReport::Ingested);
    let sensors = m.clients[0].sensor_manager.get_sensors();
    assert_eq!(sensors.len(), 1);
    let enc = sensors[0].get_encoded_string();
    assert!(enc.starts_with("23.5#sensor1#"));
}

#[test]
fn snapshot_builder_lists_readings_in_first_seen_order() {
    let mut m = manager_with(&["client1"]);
    for payload in ["1#a", "2#b", "3#a"] {
        m.received_mqtt_message_at(
            "client1".to_string(),
            "sensor/temperature/room1".to_string(),
            payload.to_string(),
            "gateway",
            noon(),
        );
    }
    let msgs = m.publish_sensors_of_client("client1".to_string());
    assert_eq!(msgs.len(), 2);
    assert_eq!(msgs[0].payload, "3#a#12:00:00");
    assert_eq!(msgs[1].payload, "2#b#12:00:00");
}
