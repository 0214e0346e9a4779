//! The message-tagging protocol: constructors for outbound text frames,
//! classification of inbound ones, and the round-trip laws that keep the
//! relay free of echo and amplification loops.
//!
//! Wire markers (case-sensitive, prefix-based):
//! - `HUB_BROADCAST: <content>` — relayed from the hub, to be stripped
//!   and re-broadcast exactly once;
//! - `[CLOUD] <content>` / `[HUB] <content>` — display labels;
//! - `Welcome to Pozor-dom <component>!` — sent once per connection;
//! - `<component> received: <content>` — echo-response.

use vstd::prelude::*;
use vstd::string::*;
use crate::strutil::{
    seq_contains, seq_contains_at, seq_starts_with, str_contains, str_starts_with,
};

verus! {

/// A tagged hub-relay frame: the marker, one space, then the content.
pub open spec fn spec_create_hub_broadcast(content: Seq<char>) -> Seq<char> {
    "HUB_BROADCAST: "@ + content
}

/// What stripping a frame yields: exactly the text after the marker
/// and its one separator space, or the frame unchanged when that
/// prefix is absent.
pub open spec fn spec_extract_hub_broadcast(msg: Seq<char>) -> Seq<char> {
    if seq_starts_with(msg, "HUB_BROADCAST: "@) {
        msg.subrange("HUB_BROADCAST: "@.len() as int, msg.len() as int)
    } else {
        msg
    }
}

/// A cloud-labeled display frame.
pub open spec fn spec_create_cloud_message(content: Seq<char>) -> Seq<char> {
    "[CLOUD] "@ + content
}

/// A hub-labeled display frame.
pub open spec fn spec_create_hub_message(content: Seq<char>) -> Seq<char> {
    "[HUB] "@ + content
}

/// The greeting sent once to each new connection.
pub open spec fn spec_create_welcome_message(component: Seq<char>) -> Seq<char> {
    "Welcome to Pozor-dom "@ + component + "!"@
}

/// The echo-response a component sends back to a sender.
pub open spec fn spec_create_echo_message(component: Seq<char>, content: Seq<char>) -> Seq<char> {
    component + " received: "@ + content
}

/// Does the frame carry the hub-relay marker?
pub fn is_hub_broadcast(msg: &str) -> (r: bool)
    ensures
        r == seq_starts_with(msg@, "HUB_BROADCAST:"@),
{
    str_starts_with(msg, "HUB_BROADCAST:")
}

/// Strip the hub-relay marker and its separator space; identity on
/// input not so tagged.
pub fn extract_hub_broadcast(msg: &str) -> (r: &str)
    ensures
        r@ == spec_extract_hub_broadcast(msg@),
{
    if str_starts_with(msg, "HUB_BROADCAST: ") {
        let pl = "HUB_BROADCAST: ".unicode_len();
        msg.substring_char(pl, msg.unicode_len())
    } else {
        msg
    }
}

/// Tag content for one-hop relay toward the peer service.
pub fn create_hub_broadcast(content: &str) -> (r: String)
    ensures
        r@ == spec_create_hub_broadcast(content@),
{
    let mut s = String::from_str("HUB_BROADCAST: ");
    s.append(content);
    s
}

/// Is the frame an echo-response?  True iff it contains the fixed
/// `received:` marker anywhere.
pub fn is_response_message(msg: &str) -> (r: bool)
    ensures
        r == seq_contains(msg@, "received:"@),
{
    str_contains(msg, "received:")
}

/// Label content as originating from the cloud mirror.
pub fn create_cloud_message(content: &str) -> (r: String)
    ensures
        r@ == spec_create_cloud_message(content@),
{
    let mut s = String::from_str("[CLOUD] ");
    s.append(content);
    s
}

/// Label content as originating from the hub.
pub fn create_hub_message(content: &str) -> (r: String)
    ensures
        r@ == spec_create_hub_message(content@),
{
    let mut s = String::from_str("[HUB] ");
    s.append(content);
    s
}

/// Build the greeting for a newly accepted connection.
pub fn create_welcome_message(component: &str) -> (r: String)
    ensures
        r@ == spec_create_welcome_message(component@),
{
    let mut s = String::from_str("Welcome to Pozor-dom ");
    s.append(component);
    s.append("!");
    s
}

/// Build the echo-response acknowledging received content.
pub fn create_echo_message(component: &str, content: &str) -> (r: String)
    ensures
        r@ == spec_create_echo_message(component@, content@),
{
    let mut s = String::from_str(component);
    s.append(" received: ");
    s.append(content);
    s
}

/// The classification of a text frame, produced once at the protocol
/// boundary and matched exhaustively downstream.
#[derive(Clone, Copy, PartialEq, Eq, Structural, Debug)]
pub enum Envelope {
    /// Greeting sent once per new connection.
    Welcome,
    /// Echo-response; exempt from any further relay or echo.
    EchoResponse,
    /// Carries the hub-relay marker: forward one hop, never re-tag.
    HubRelay,
    /// Display-tagged content originating from the cloud mirror.
    CloudRelay,
    /// Plain chat or relay content.
    Raw,
}

/// Total classification of a frame.  The tests are ordered: the
/// one-hop relay marker wins, then the echo marker, then the display
/// labels (`[CLOUD]` and `[HUB]` alike), then the greeting; anything
/// else is raw content.
pub open spec fn spec_classify(msg: Seq<char>) -> Envelope {
    if seq_starts_with(msg, "HUB_BROADCAST:"@) {
        Envelope::HubRelay
    } else if seq_contains(msg, "received:"@) {
        Envelope::EchoResponse
    } else if seq_starts_with(msg, "[CLOUD]"@) || seq_starts_with(msg, "[HUB]"@) {
        Envelope::CloudRelay
    } else if seq_starts_with(msg, "Welcome to Pozor-dom"@) {
        Envelope::Welcome
    } else {
        Envelope::Raw
    }
}

/// Classify a frame; total and side-effect free.
pub fn classify(msg: &str) -> (r: Envelope)
    ensures
        r == spec_classify(msg@),
{
    if is_hub_broadcast(msg) {
        Envelope::HubRelay
    } else if is_response_message(msg) {
        Envelope::EchoResponse
    } else if str_starts_with(msg, "[CLOUD]") || str_starts_with(msg, "[HUB]") {
        Envelope::CloudRelay
    } else if str_starts_with(msg, "Welcome to Pozor-dom") {
        Envelope::Welcome
    } else {
        Envelope::Raw
    }
}

/// Round trip of the one-hop relay tag: stripping a tagged frame
/// gives the content back, for every string.
pub proof fn lemma_hub_relay_round_trip(s: Seq<char>)
    ensures
        spec_extract_hub_broadcast(spec_create_hub_broadcast(s)) == s,
{
    reveal_strlit("HUB_BROADCAST: ");
    let tag = spec_create_hub_broadcast(s);
    let m = "HUB_BROADCAST: "@;
    assert(tag.subrange(0, m.len() as int) =~= m);
    assert(seq_starts_with(tag, m));
    assert(tag.subrange(m.len() as int, tag.len() as int) =~= s);
}

/// Every echo-response contains the echo marker: the classifier can
/// never mistake one for fresh content to acknowledge.
pub proof fn lemma_echo_is_response(component: Seq<char>, content: Seq<char>)
    ensures
        seq_contains(spec_create_echo_message(component, content), "received:"@),
{
    reveal_strlit(" received: ");
    reveal_strlit("received:");
    let e = spec_create_echo_message(component, content);
    let n = "received:"@;
    let i = component.len() + 1 as int;
    assert(e.subrange(i, i + n.len()) =~= n);
    assert(seq_contains_at(e, n, i));
}

} // verus!
