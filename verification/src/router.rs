//! The broadcast router: which frames cross which boundary, and in
//! what shape.  Telemetry travels verbatim; chat content is relayed
//! with an address envelope locally and a one-hop relay tag toward
//! the cloud; display-labeled and echo frames are never forwarded
//! again; and every relay of fresh content is acknowledged to its
//! sender only.

use vstd::prelude::*;
use vstd::string::*;
use crate::protocol::{
    classify, create_cloud_message, create_echo_message, create_hub_broadcast,
    create_hub_message, extract_hub_broadcast, is_response_message, spec_classify,
    spec_create_cloud_message, spec_create_echo_message, spec_create_hub_broadcast,
    spec_create_hub_message, spec_extract_hub_broadcast, Envelope, lemma_echo_is_response,
};
use crate::registry::{peers_view, spec_targets, PeerRegistry};
use crate::strutil::seq_contains;
use crate::telemetry::{parse_telemetry, spec_parse_telemetry, DeviceTelemetry};

verus! {

/// What the hub sends on the cloud link for one locally broadcast
/// frame: telemetry verbatim; fresh chat content wrapped in the
/// one-hop relay tag; everything already relayed, labeled, echoed or
/// greeted stays home.
pub open spec fn spec_hub_cloud_outbound(t: Seq<char>) -> Option<Seq<char>> {
    if spec_parse_telemetry(t) is Some {
        Some(t)
    } else {
        match spec_classify(t) {
            Envelope::Raw => Some(spec_create_hub_broadcast(t)),
            _ => None,
        }
    }
}

/// Decide the hub's cloud-bound copy of a locally broadcast frame.
pub fn hub_cloud_outbound(text: &str) -> (r: Option<String>)
    ensures
        match spec_hub_cloud_outbound(text@) {
            Some(m) => match r {
                Some(rm) => rm@ == m,
                None => false,
            },
            None => r is None,
        },
{
    if parse_telemetry(text).is_some() {
        return Some(String::from_str(text));
    }
    match classify(text) {
        Envelope::Raw => Some(create_hub_broadcast(text)),
        _ => None,
    }
}

/// What the hub re-broadcasts locally for one frame received from
/// the cloud: tag-carrying content is stripped and displayed under
/// the cloud label, echo-responses are dropped, everything else
/// passes verbatim.
pub open spec fn spec_hub_from_cloud(t: Seq<char>) -> Option<Seq<char>> {
    match spec_classify(t) {
        Envelope::HubRelay => Some(spec_create_cloud_message(spec_extract_hub_broadcast(t))),
        Envelope::EchoResponse => None,
        _ => Some(t),
    }
}

/// Decide the hub's local re-broadcast of a frame from the cloud.
pub fn hub_from_cloud(text: &str) -> (r: Option<String>)
    ensures
        match spec_hub_from_cloud(text@) {
            Some(m) => match r {
                Some(rm) => rm@ == m,
                None => false,
            },
            None => r is None,
        },
{
    match classify(text) {
        Envelope::HubRelay => Some(create_cloud_message(extract_hub_broadcast(text))),
        Envelope::EchoResponse => None,
        _ => Some(String::from_str(text)),
    }
}

/// The address-prefixed envelope a relayed frame wears locally.
pub open spec fn spec_peer_envelope(sender: Seq<char>, text: Seq<char>) -> Seq<char> {
    "["@ + sender + "] "@ + text
}

/// Pair every address with one copy of the message.
pub open spec fn spec_sends_to(addrs: Seq<Seq<char>>, msg: Seq<char>) -> Seq<
    (Seq<char>, Seq<char>),
> {
    addrs.map(|i: int, a: Seq<char>| (a, msg))
}

/// The views of a send list.
pub open spec fn sends_view(v: Seq<(String, String)>) -> Seq<(Seq<char>, Seq<char>)> {
    v.map(|i: int, p: (String, String)| (p.0@, p.1@))
}

/// What the cloud mirror does with one text frame from the peer at
/// `sender`.
pub struct CloudPlan {
    /// Telemetry carried by a hub-relay frame: update the mirror's
    /// snapshot, nothing else.
    pub telemetry: Option<DeviceTelemetry>,
    /// Deliveries to make, each `(address, message)`, in registry
    /// order.
    pub sends: Vec<(String, String)>,
    /// The acknowledgment owed to the sender alone, if any.
    pub echo: Option<String>,
}

/// Decide the cloud mirror's reaction to one inbound text frame.
///
/// A hub-relay frame is stripped once: telemetry inside it updates
/// the snapshot; other content is re-broadcast to every peer under
/// the hub label.  Any other frame is relayed to every peer but the
/// sender, wearing the sender's address, and fresh content — never
/// an echo-response — is acknowledged to the sender alone.
pub fn cloud_handle_text(registry: &PeerRegistry, sender: &str, text: &str) -> (r: CloudPlan)
    ensures
        spec_classify(text@) is HubRelay ==> ({
            let content = spec_extract_hub_broadcast(text@);
            match spec_parse_telemetry(content) {
                Some(tv) => {
                    &&& match r.telemetry {
                        Some(t) => t@ == tv,
                        None => false,
                    }
                    &&& sends_view(r.sends@) == Seq::<(Seq<char>, Seq<char>)>::empty()
                    &&& r.echo is None
                },
                None => {
                    &&& r.telemetry is None
                    &&& sends_view(r.sends@) == spec_sends_to(
                        registry@,
                        spec_create_hub_message(content),
                    )
                    &&& r.echo is None
                },
            }
        }),
        !(spec_classify(text@) is HubRelay) ==> ({
            &&& r.telemetry is None
            &&& sends_view(r.sends@) == spec_sends_to(
                spec_targets(registry@, sender@),
                spec_peer_envelope(sender@, text@),
            )
            &&& match r.echo {
                Some(e) => !seq_contains(text@, "received:"@) && e@
                    == spec_create_echo_message("Cloud"@, text@),
                None => seq_contains(text@, "received:"@),
            }
        }),
{
    if let Envelope::HubRelay = classify(text) {
        let content = extract_hub_broadcast(text);
        match parse_telemetry(content) {
            Some(t) => {
                let r = CloudPlan { telemetry: Some(t), sends: Vec::new(), echo: None };
                proof {
                    assert(sends_view(r.sends@) =~= Seq::<(Seq<char>, Seq<char>)>::empty());
                }
                r
            },
            None => {
                let msg = create_hub_message(content);
                let peers = registry.all_peers();
                let sends = pair_with(peers, &msg);
                proof {
                    assert(sends_view(sends@) =~= spec_sends_to(registry@, msg@));
                }
                CloudPlan { telemetry: None, sends, echo: None }
            },
        }
    } else {
        let mut envelope = String::from_str("[");
        envelope.append(sender);
        envelope.append("] ");
        envelope.append(text);
        let targets = registry.broadcast_targets(sender);
        let sends = pair_with(targets, &envelope);
        proof {
            assert(sends_view(sends@) =~= spec_sends_to(
                spec_targets(registry@, sender@),
                envelope@,
            ));
            assert(envelope@ =~= spec_peer_envelope(sender@, text@));
        }
        let echo = if !is_response_message(text) {
            Some(create_echo_message("Cloud", text))
        } else {
            None
        };
        CloudPlan { telemetry: None, sends, echo }
    }
}

/// Pair every address with its own copy of one message.
fn pair_with(addrs: Vec<String>, msg: &String) -> (r: Vec<(String, String)>)
    ensures
        sends_view(r@) == spec_sends_to(peers_view(addrs@), msg@),
{
    let n = addrs.len();
    let mut out: Vec<(String, String)> = Vec::new();
    let mut i: usize = 0;
    while i < n
        invariant
            0 <= i <= n,
            n == addrs@.len(),
            out@.len() == i,
            forall|k: int|
                0 <= k < i ==> (#[trigger] out@[k]).0@ == addrs@[k]@ && out@[k].1@ == msg@,
        decreases n - i,
    {
        let a = addrs[i].clone();
        out.push((a, msg.clone()));
        i += 1;
    }
    proof {
        assert(sends_view(out@) =~= spec_sends_to(peers_view(addrs@), msg@));
    }
    out
}

/// The one-hop rule: the local copy of a tag-carrying frame from the
/// cloud is never forwarded toward the cloud again.
pub proof fn lemma_one_hop(t: Seq<char>)
    requires
        spec_classify(t) is HubRelay,
    ensures
        match spec_hub_from_cloud(t) {
            Some(m) => spec_hub_cloud_outbound(m) is None,
            None => true,
        },
{
    reveal_strlit("[CLOUD] ");
    reveal_strlit("[CLOUD]");
    reveal_strlit("HUB_BROADCAST:");
    reveal_strlit("{");
    let m = spec_create_cloud_message(spec_extract_hub_broadcast(t));
    assert(m[0] == '[');
    assert(spec_parse_telemetry(m) is None) by {
        assert(!crate::strutil::is_space_char('['));
        assert(crate::json::spec_skip_ws(m, 0) == 0);
        assert(m[0] != '{');
    }
    if !(spec_classify(m) is EchoResponse) {
        assert(!crate::strutil::seq_starts_with(m, "HUB_BROADCAST:"@)) by {
            assert(m[0] != 'H');
            assert("HUB_BROADCAST:"@[0] == 'H');
            if crate::strutil::seq_starts_with(m, "HUB_BROADCAST:"@) {
                assert(m.subrange(0, 14)[0] == m[0]);
            }
        }
        assert(crate::strutil::seq_starts_with(m, "[CLOUD]"@)) by {
            assert(m.subrange(0, 7) =~= "[CLOUD]"@);
        }
        assert(spec_classify(m) is CloudRelay);
    }
}

/// No echo amplification: an echo-response handed back into the
/// router is never forwarded toward the cloud.  (The one exception
/// is an echo that is itself a complete telemetry object, such as the
/// echo of a raw telemetry frame; telemetry is exempt from echo
/// prevention.)
pub proof fn lemma_no_echo_amplification(component: Seq<char>, content: Seq<char>)
    requires
        spec_parse_telemetry(spec_create_echo_message(component, content)) is None,
    ensures
        spec_hub_cloud_outbound(spec_create_echo_message(component, content)) is None,
{
    lemma_echo_is_response(component, content);
    let e = spec_create_echo_message(component, content);
    assert(!(spec_classify(e) is Raw));
}

} // verus!
