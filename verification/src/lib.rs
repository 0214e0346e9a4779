//! Relay core for a smart-home hub: message-tagging protocol, device
//! telemetry parsing and persistence model, peer fan-out, and the
//! supervised cloud uplink state machine.

pub mod api;
pub mod bridge;
pub mod client;
pub mod clock;
pub mod cloudlink;
pub mod commands;
pub mod hubstate;
pub mod json;
pub mod protocol;
pub mod registry;
pub mod router;
pub mod sequtil;
pub mod store;
pub mod strutil;
pub mod telemetry;

use vstd::prelude::*;
use vstd::string::*;

verus! {

/// The cloud mirror's WebSocket port.
pub const CLOUD_PORT: u16 = 8081;

/// The hub's WebSocket port.
pub const HUB_PORT: u16 = 8082;

/// The cloud mirror's WebSocket URL at the default loopback host.
pub fn cloud_url() -> (r: String)
    ensures
        r@ == "ws://127.0.0.1:8081"@,
{
    String::from_str("ws://127.0.0.1:8081")
}

/// The cloud mirror's WebSocket URL at the given host.
pub fn cloud_url_with_host(host: &str) -> (r: String)
    ensures
        r@ == "ws://"@ + host@ + ":8081"@,
{
    let mut s = String::from_str("ws://");
    s.append(host);
    s.append(":8081");
    s
}

/// The hub's WebSocket URL at the default loopback host.
pub fn hub_url() -> (r: String)
    ensures
        r@ == "ws://127.0.0.1:8082"@,
{
    String::from_str("ws://127.0.0.1:8082")
}

/// Checked addition of two counters.
pub fn add(left: u64, right: u64) -> (r: u64)
    requires
        left + right <= u64::MAX,
    ensures
        r == left + right,
{
    left + right
}

} // verus!
