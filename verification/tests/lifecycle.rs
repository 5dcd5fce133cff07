//! Configuration validation and the per-client connection lifecycle.

use mqtt_gateway::config::{MqttClientConfig, MqttClientConfigs};
use mqtt_gateway::mqtt_manager::{
    ClientAction, ConnectionEvent, ConnectionState, InvalidConfig, MqttManager, RETRY_DELAY_MS,
};

fn config(name: &str) -> MqttClientConfig {
    MqttClientConfig {
        name: name.to_string(),
        address: "tcp://localhost:1883".to_string(),
        port: 1883,
        user: "user".to_string(),
        password: "pass".to_string(),
    }
}

fn manager_with(names: &[&str]) -> MqttManager {
    let mut m = MqttManager::new();
    let configs = MqttClientConfigs {
        mqtt_clients: names.iter().map(|n| config(n)).collect(),
    };
    m.add_clients_from_config(configs).unwrap();
    m
}

#[test]
fn registration_keeps_order_and_starts_disconnected() {
    let m = manager_with(&["c1", "c2"]);
    assert_eq!(m.clients.len(), 2);
    assert_eq!(m.clients[0].config.name, "c1");
    assert_eq!(m.clients[1].config.name, "c2");
    assert_eq!(m.clients[0].state, ConnectionState::Disconnected);
    assert_eq!(m.clients[1].state, ConnectionState::Disconnected);
}

#[test]
fn registration_fails_fast_on_invalid_config() {
    let mut m = MqttManager::new();
    let mut bad = config("c2");
    bad.address = String::new();
    let configs = MqttClientConfigs { mqtt_clients: vec![config("c1"), bad] };
    let err = m.add_clients_from_config(configs).unwrap_err();
    assert_eq!(err, InvalidConfig { index: 1 });
    assert!(m.clients.is_empty());
}

#[test]
fn registration_rejects_missing_credentials() {
    let mut m = MqttManager::new();
    let mut bad = config("c1");
    bad.user = String::new();
    let configs = MqttClientConfigs { mqtt_clients: vec![bad] };
    assert_eq!(
        m.add_clients_from_config(configs),
        Err(InvalidConfig { index: 0 })
    );
}

#[test]
fn registration_replaces_a_client_of_the_same_name() {
    let mut m = manager_with(&["c1"]);
    let mut replacement = config("c1");
    replacement.port = 8883;
    let configs = MqttClientConfigs { mqtt_clients: vec![replacement] };
    m.add_clients_from_config(configs).unwrap();
    assert_eq!(m.clients.len(), 1);
    assert_eq!(m.clients[0].config.port, 8883);
}

#[test]
fn connect_all_starts_every_disconnected_client() {
    let mut m = manager_with(&["c1", "c2"]);
    let actions = m.connect_all();
    assert_eq!(m.clients[0].state, ConnectionState::Connecting);
    assert_eq!(m.clients[1].state, ConnectionState::Connecting);
    assert_eq!(actions.len(), 2);
    assert!(matches!(
        &actions[0],
        ClientAction::StartConnect { client_id } if client_id == "c1"
    ));
    assert!(matches!(
        &actions[1],
        ClientAction::StartConnect { client_id } if client_id == "c2"
    ));
}

#[test]
fn successful_connect_subscribes_to_everything() {
    let mut m = manager_with(&["c1"]);
    m.connect_all();
    let actions = m.connection_event("c1".to_string(), ConnectionEvent::ConnectSucceeded);
    assert_eq!(m.clients[0].state, ConnectionState::Connected);
    assert_eq!(actions.len(), 1);
    assert!(matches!(
        &actions[0],
        ClientAction::Subscribe { client_id, topic, qos: 1 }
            if client_id == "c1" && topic == "#"
    ));
}

#[test]
fn failed_connect_schedules_a_retry() {
    let mut m = manager_with(&["c1"]);
    m.connect_all();
    let actions = m.connection_event("c1".to_string(), ConnectionEvent::ConnectFailed);
    assert_eq!(m.clients[0].state, ConnectionState::Disconnected);
    assert_eq!(actions.len(), 1);
    assert!(matches!(
        &actions[0],
        ClientAction::ScheduleRetry { client_id, delay_ms }
            if client_id == "c1" && *delay_ms == RETRY_DELAY_MS
    ));
}

#[test]
fn scenario_connection_lost_then_retry() {
    // A lost connection moves the client to Disconnected and schedules a
    // retry; the retry trigger re-enters Connecting; the other client's
    // state is untouched throughout.
    let mut m = manager_with(&["c1", "c2"]);
    m.connect_all();
    m.connection_event("c1".to_string(), ConnectionEvent::ConnectSucceeded);
    m.connection_event("c2".to_string(), ConnectionEvent::ConnectSucceeded);

    let actions = m.connection_event("c1".to_string(), ConnectionEvent::ConnectionLost);
    assert_eq!(m.clients[0].state, ConnectionState::Disconnected);
    assert_eq!(m.clients[1].state, ConnectionState::Connected);
    assert_eq!(actions.len(), 1);
    assert!(matches!(
        &actions[0],
        ClientAction::ScheduleRetry { client_id, delay_ms }
            if client_id == "c1" && *delay_ms == RETRY_DELAY_MS
    ));

    let actions = m.reconnect("c1".to_string());
    assert_eq!(m.clients[0].state, ConnectionState::Connecting);
    assert_eq!(m.clients[1].state, ConnectionState::Connected);
    assert_eq!(actions.len(), 1);
    assert!(matches!(
        &actions[0],
        ClientAction::StartConnect { client_id } if client_id == "c1"
    ));
}

#[test]
fn reconnect_is_idempotent_while_connected() {
    let mut m = manager_with(&["c1"]);
    m.connect_all();
    m.connection_event("c1".to_string(), ConnectionEvent::ConnectSucceeded);
    let actions = m.reconnect("c1".to_string());
    assert_eq!(m.clients[0].state, ConnectionState::Connected);
    assert!(actions.is_empty());
}

#[test]
fn reconnect_is_idempotent_while_connecting() {
    let mut m = manager_with(&["c1"]);
    m.connect_all();
    let actions = m.reconnect("c1".to_string());
    assert_eq!(m.clients[0].state, ConnectionState::Connecting);
    assert!(actions.is_empty());
}

#[test]
fn spurious_events_change_nothing() {
    let mut m = manager_with(&["c1"]);
    // A success notification while disconnected is ignored.
    let actions = m.connection_event("c1".to_string(), ConnectionEvent::ConnectSucceeded);
    assert_eq!(m.clients[0].state, ConnectionState::Disconnected);
    assert!(actions.is_empty());
    // A lost notification while not connected is ignored.
    let actions = m.connection_event("c1".to_string(), ConnectionEvent::ConnectionLost);
    assert_eq!(m.clients[0].state, ConnectionState::Disconnected);
    assert!(actions.is_empty());
}

#[test]
fn disconnect_all_requests_termination_once_per_live_client() {
    let mut m = manager_with(&["c1", "c2", "c3"]);
    m.connect_all();
    m.connection_event("c2".to_string(), ConnectionEvent::ConnectFailed);
    // c1 and c3 are connecting, c2 is disconnected again.
    let actions = m.disconnect_all();
    assert_eq!(actions.len(), 2);
    assert!(matches!(
        &actions[0],
        ClientAction::Disconnect { client_id } if client_id == "c1"
    ));
    assert!(matches!(
        &actions[1],
        ClientAction::Disconnect { client_id } if client_id == "c3"
    ));
    for c in &m.clients {
        assert_eq!(c.state, ConnectionState::Disconnected);
    }
}

#[test]
fn disconnect_single_client() {
    let mut m = manager_with(&["c1"]);
    m.connect_all();
    m.connection_event("c1".to_string(), ConnectionEvent::ConnectSucceeded);
    let actions = m.disconnect("c1".to_string());
    assert_eq!(m.clients[0].state, ConnectionState::Disconnected);
    assert_eq!(actions.len(), 1);
    // Disconnecting again is a no-op.
    let actions = m.disconnect("c1".to_string());
    assert!(actions.is_empty());
}

#[test]
fn connect_all_skips_clients_already_underway() {
    let mut m = manager_with(&["c1", "c2"]);
    m.connect_all();
    m.connection_event("c1".to_string(), ConnectionEvent::ConnectSucceeded);
    // c1 connected, c2 still connecting: nothing new to start.
    let actions = m.connect_all();
    assert!(actions.is_empty());
    assert_eq!(m.clients[0].state, ConnectionState::Connected);
    assert_eq!(m.clients[1].state, ConnectionState::Connecting);
}
