//! Topic classification: the ordered prefix rules of the gateway protocol,
//! first match wins.

use vstd::prelude::*;

use crate::text::{has_prefix, str_eq, str_has_prefix};

verus! {

/// Longest payload that is reported in full when it arrives on an
/// unrecognized topic; anything longer is reported by its length only.
pub const UNKNOWN_PAYLOAD_REPORT_LIMIT: usize = 50;

/// How one inbound message is to be handled.
#[derive(Clone, Copy, PartialEq, Eq, Structural, Debug)]
pub enum Route {
    /// Sensor ingest path: parse the payload, update the store, persist.
    SensorIngest,
    /// Snapshot request: publish every known reading of the client.
    SnapshotGet,
    /// Reserved filtered snapshot request, reported as not implemented.
    SnapshotGetValid,
    /// Unknown command on the snapshot command topic.
    SnapshotUnknownCommand,
    /// Liveness check: publish one acknowledgment.
    Ping,
    /// Unknown command on the liveness command topic.
    PingUnknownCommand,
    /// Unrecognized topic; the payload is short enough to report in full.
    UnknownTopicShort,
    /// Unrecognized topic; only the payload length is reported.
    UnknownTopicLong,
}

/// The ordered classification of one inbound message.
pub open spec fn route_spec(topic: Seq<char>, payload: Seq<char>) -> Route {
    if has_prefix(topic, "sensor/temperature"@) {
        Route::SensorIngest
    } else if has_prefix(topic, "datalogger/temperature/command"@) {
        if payload == "get"@ {
            Route::SnapshotGet
        } else if payload == "get_valid"@ {
            Route::SnapshotGetValid
        } else {
            Route::SnapshotUnknownCommand
        }
    } else if has_prefix(topic, "datalogger/command"@) {
        if payload == "ping"@ {
            Route::Ping
        } else {
            Route::PingUnknownCommand
        }
    } else if payload.len() < UNKNOWN_PAYLOAD_REPORT_LIMIT as int {
        Route::UnknownTopicShort
    } else {
        Route::UnknownTopicLong
    }
}

/// Classifies one inbound message by its topic and payload.
pub fn classify(topic: &str, payload: &str) -> (r: Route)
    ensures
        r == route_spec(topic@, payload@),
{
    if str_has_prefix(topic, "sensor/temperature") {
        Route::SensorIngest
    } else if str_has_prefix(topic, "datalogger/temperature/command") {
        if str_eq(payload, "get") {
            Route::SnapshotGet
        } else if str_eq(payload, "get_valid") {
            Route::SnapshotGetValid
        } else {
            Route::SnapshotUnknownCommand
        }
    } else if str_has_prefix(topic, "datalogger/command") {
        if str_eq(payload, "ping") {
            Route::Ping
        } else {
            Route::PingUnknownCommand
        }
    } else if payload.unicode_len() < UNKNOWN_PAYLOAD_REPORT_LIMIT {
        Route::UnknownTopicShort
    } else {
        Route::UnknownTopicLong
    }
}

} // verus!
