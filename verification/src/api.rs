//! The dashboard HTTP API: route classification, the JSON bodies of
//! each response, and the toggle flow that flips, persists and
//! signals the desired cloud mode in one step.

use vstd::prelude::*;
use vstd::string::*;
use crate::cloudlink::CloudCommand;
use crate::hubstate::{hub_wf, HubState};
use crate::json::{append_json_string, spec_json_string};
use crate::store::DeviceStore;
use crate::strutil::str_eq;
use crate::telemetry::{devices_view, spec_telemetry_json, telemetry_json, DeviceTelemetry, TelemetryView};

verus! {

/// What a request path and method name.
#[derive(Clone, Copy, PartialEq, Eq, Structural, Debug)]
pub enum ApiEndpoint {
    /// `/` — the dashboard page.
    Dashboard,
    /// `/api/devices` — the latest telemetry snapshot.
    Devices,
    /// `/api/messages` — the rolling message log.
    Messages,
    /// `POST /api/toggle-cloud` — flip the desired cloud mode.
    ToggleCloud,
    /// Anything else.
    NotFound,
}

/// Route classification: exact paths, with the toggle requiring a
/// POST.
pub open spec fn spec_route(path: Seq<char>, is_post: bool) -> ApiEndpoint {
    if path == "/"@ {
        ApiEndpoint::Dashboard
    } else if path == "/api/devices"@ {
        ApiEndpoint::Devices
    } else if path == "/api/messages"@ {
        ApiEndpoint::Messages
    } else if path == "/api/toggle-cloud"@ && is_post {
        ApiEndpoint::ToggleCloud
    } else {
        ApiEndpoint::NotFound
    }
}

/// Classify a request.
pub fn route(path: &str, is_post: bool) -> (r: ApiEndpoint)
    ensures
        r == spec_route(path@, is_post),
{
    if str_eq(path, "/") {
        ApiEndpoint::Dashboard
    } else if str_eq(path, "/api/devices") {
        ApiEndpoint::Devices
    } else if str_eq(path, "/api/messages") {
        ApiEndpoint::Messages
    } else if str_eq(path, "/api/toggle-cloud") && is_post {
        ApiEndpoint::ToggleCloud
    } else {
        ApiEndpoint::NotFound
    }
}

/// The body of the devices array, elements in order, without the
/// brackets.
pub open spec fn spec_devices_json_inner(ts: Seq<TelemetryView>) -> Seq<char>
    decreases ts.len(),
{
    if ts.len() == 0 {
        Seq::empty()
    } else if ts.len() == 1 {
        spec_telemetry_json(ts[0])
    } else {
        spec_devices_json_inner(ts.drop_last()) + seq![','] + spec_telemetry_json(ts.last())
    }
}

/// The `/api/devices` response: a JSON array of telemetry records.
pub open spec fn spec_devices_json(ts: Seq<TelemetryView>) -> Seq<char> {
    seq!['['] + spec_devices_json_inner(ts) + seq![']']
}

/// Serialize the devices snapshot.
pub fn devices_json(devices: &Vec<DeviceTelemetry>) -> (r: String)
    ensures
        r@ == spec_devices_json(devices_view(devices@)),
{
    let mut out = String::from_str("[");
    proof {
        reveal_strlit("[");
        reveal_strlit("]");
        reveal_strlit(",");
        assert("["@ =~= seq!['[']);
        assert(devices_view(devices@).subrange(0, 0) =~= Seq::<TelemetryView>::empty());
        assert(out@ =~= seq!['['] + spec_devices_json_inner(
            devices_view(devices@).subrange(0, 0),
        ));
    }
    let n = devices.len();
    let mut i: usize = 0;
    while i < n
        invariant
            0 <= i <= n,
            n == devices@.len(),
            out@ == seq!['['] + spec_devices_json_inner(
                devices_view(devices@).subrange(0, i as int),
            ),
        decreases n - i,
    {
        let ghost prefix = devices_view(devices@).subrange(0, i as int);
        let ghost prefix1 = devices_view(devices@).subrange(0, i as int + 1);
        proof {
            assert(prefix1.drop_last() =~= prefix);
            assert(prefix1.last() == devices@[i as int]@);
        }
        if i > 0 {
            out.append(",");
            proof {
                reveal_strlit(",");
                assert(","@ =~= seq![',']);
            }
        }
        let dj = telemetry_json(&devices[i]);
        out.append(dj.as_str());
        proof {
            if i == 0 {
                assert(prefix1.len() == 1);
                assert(out@ =~= seq!['['] + spec_devices_json_inner(prefix1));
            } else {
                assert(out@ =~= seq!['['] + spec_devices_json_inner(prefix1));
            }
        }
        i += 1;
    }
    proof {
        assert(devices_view(devices@).subrange(0, n as int) =~= devices_view(devices@));
    }
    out.append("]");
    proof {
        reveal_strlit("]");
        assert("]"@ =~= seq![']']);
        assert(out@ =~= spec_devices_json(devices_view(devices@)));
    }
    out
}

/// The views of a message vector.
pub open spec fn messages_view(ms: Seq<String>) -> Seq<Seq<char>> {
    ms.map(|i: int, m: String| m@)
}

/// The body of the messages array, elements in order, without the
/// brackets.
pub open spec fn spec_messages_json_inner(ms: Seq<Seq<char>>) -> Seq<char>
    decreases ms.len(),
{
    if ms.len() == 0 {
        Seq::empty()
    } else if ms.len() == 1 {
        spec_json_string(ms[0])
    } else {
        spec_messages_json_inner(ms.drop_last()) + seq![','] + spec_json_string(ms.last())
    }
}

/// The `/api/messages` response: a JSON array of strings.
pub open spec fn spec_messages_json(ms: Seq<Seq<char>>) -> Seq<char> {
    seq!['['] + spec_messages_json_inner(ms) + seq![']']
}

/// Serialize the rolling message log.
pub fn messages_json(messages: &Vec<String>) -> (r: String)
    ensures
        r@ == spec_messages_json(messages_view(messages@)),
{
    let mut out = String::from_str("[");
    proof {
        reveal_strlit("[");
        reveal_strlit("]");
        reveal_strlit(",");
        assert("["@ =~= seq!['[']);
        assert(messages_view(messages@).subrange(0, 0) =~= Seq::<Seq<char>>::empty());
        assert(out@ =~= seq!['['] + spec_messages_json_inner(
            messages_view(messages@).subrange(0, 0),
        ));
    }
    let n = messages.len();
    let mut i: usize = 0;
    while i < n
        invariant
            0 <= i <= n,
            n == messages@.len(),
            out@ == seq!['['] + spec_messages_json_inner(
                messages_view(messages@).subrange(0, i as int),
            ),
        decreases n - i,
    {
        let ghost prefix = messages_view(messages@).subrange(0, i as int);
        let ghost prefix1 = messages_view(messages@).subrange(0, i as int + 1);
        proof {
            assert(prefix1.drop_last() =~= prefix);
            assert(prefix1.last() == messages@[i as int]@);
        }
        if i > 0 {
            out.append(",");
            proof {
                reveal_strlit(",");
                assert(","@ =~= seq![',']);
            }
        }
        append_json_string(&mut out, messages[i].as_str());
        proof {
            if i == 0 {
                assert(prefix1.len() == 1);
                assert(out@ =~= seq!['['] + spec_messages_json_inner(prefix1));
            } else {
                assert(out@ =~= seq!['['] + spec_messages_json_inner(prefix1));
            }
        }
        i += 1;
    }
    proof {
        assert(messages_view(messages@).subrange(0, n as int) =~= messages_view(messages@));
    }
    out.append("]");
    proof {
        reveal_strlit("]");
        assert("]"@ =~= seq![']']);
        assert(out@ =~= spec_messages_json(messages_view(messages@)));
    }
    out
}

/// The words the toggle response puts in its message line.
pub open spec fn spec_toggle_message(enabled: bool, service: Seq<char>) -> Seq<char> {
    "Cloud "@ + (if enabled {
        "enabled"@
    } else {
        "disabled"@
    }) + " for "@ + service
}

/// The `/api/toggle-cloud` response body.
pub open spec fn spec_toggle_response(enabled: bool, service: Seq<char>) -> Seq<char> {
    "{\"cloud_enabled\":"@ + (if enabled {
        "true"@
    } else {
        "false"@
    }) + ",\"message\":"@ + spec_json_string(spec_toggle_message(enabled, service)) + "}"@
}

/// Serialize the toggle response.
pub fn toggle_response(enabled: bool, service: &str) -> (r: String)
    ensures
        r@ == spec_toggle_response(enabled, service@),
{
    let mut out = String::from_str("{\"cloud_enabled\":");
    if enabled {
        out.append("true");
    } else {
        out.append("false");
    }
    out.append(",\"message\":");
    let mut msg = String::from_str("Cloud ");
    if enabled {
        msg.append("enabled");
    } else {
        msg.append("disabled");
    }
    msg.append(" for ");
    msg.append(service);
    proof {
        assert(msg@ =~= spec_toggle_message(enabled, service@));
    }
    append_json_string(&mut out, msg.as_str());
    out.append("}");
    proof {
        assert(out@ =~= spec_toggle_response(enabled, service@));
    }
    out
}

/// Flip the desired cloud mode: the live flag and the durable flag
/// change together before this returns, and the caller is told which
/// supervisor command to issue and what to answer the client.
pub fn toggle_cloud(state: &mut HubState, store: &mut DeviceStore) -> (r: (String, CloudCommand))
    requires
        hub_wf(old(state)),
    ensures
        hub_wf(final(state)),
        final(state).cloud_enabled == !old(state).cloud_enabled,
        final(state).devices@ == old(state).devices@,
        final(state).messages@ == old(state).messages@,
        final(state).service_name@ == old(state).service_name@,
        final(store)@.cloud_enabled == Some(final(state).cloud_enabled),
        final(store)@.rows == old(store)@.rows,
        r.1 == if final(state).cloud_enabled {
            CloudCommand::Connect
        } else {
            CloudCommand::Disconnect
        },
        r.0@ == spec_toggle_response(final(state).cloud_enabled, final(state).service_name@),
{
    state.toggle_cloud();
    let enabled = state.cloud_enabled;
    store.set_cloud_enabled(enabled);
    let body = toggle_response(enabled, state.service_name.as_str());
    let command = if enabled {
        CloudCommand::Connect
    } else {
        CloudCommand::Disconnect
    };
    (body, command)
}

} // verus!
