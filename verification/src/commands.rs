//! The command dispatcher: inbound control frames from interactive
//! peers are parsed, and well-formed commands are routed to the
//! device-specific command topic.  The frame itself travels on
//! unchanged.

use vstd::prelude::*;
use vstd::string::*;
use crate::json::{spec_parse_object, parse_object, JsonValue};
use crate::strutil::str_eq;
use crate::telemetry::{command_topic, spec_lookup_string, spec_lookup};

verus! {

/// Why a frame was not dispatched.
#[derive(Clone, Copy, PartialEq, Eq, Structural, Debug)]
pub enum DispatchError {
    /// Not a JSON object, or its `type` is not `"command"`.
    NotCommand,
    /// A command frame missing `device_id`, `channel` or `action`.
    InvalidFormat,
}

/// The dispatch decision: a command frame with string `device_id`,
/// `channel` and `action` fields goes to the device's command topic,
/// payload unchanged; a command frame missing one is rejected as
/// invalid; anything else is not a command.
pub open spec fn spec_dispatch(raw: Seq<char>) -> Result<(Seq<char>, Seq<char>), DispatchError> {
    match spec_parse_object(raw) {
        Some(ps) => {
            if spec_lookup_string(ps, "type"@) == Some("command"@) {
                if spec_lookup_string(ps, "device_id"@) is Some && spec_lookup_string(
                    ps,
                    "channel"@,
                ) is Some && spec_lookup_string(ps, "action"@) is Some {
                    Ok(
                        (
                            "pozor-dom/hub/command/"@ + spec_lookup_string(ps, "device_id"@)->0,
                            raw,
                        ),
                    )
                } else {
                    Err(DispatchError::InvalidFormat)
                }
            } else {
                Err(DispatchError::NotCommand)
            }
        },
        None => Err(DispatchError::NotCommand),
    }
}

/// Decide what to do with an inbound control frame.  On success the
/// result is the command topic for the addressed device and the
/// frame to publish there, verbatim.
pub fn dispatch(raw: &str) -> (r: Result<(String, String), DispatchError>)
    ensures
        match spec_dispatch(raw@) {
            Ok(p) => match r {
                Ok(q) => q.0@ == p.0 && q.1@ == p.1,
                Err(_) => false,
            },
            Err(e) => r == Err::<(String, String), DispatchError>(e),
        },
{
    let ps = match parse_object(raw) {
        Some(ps) => ps,
        None => {
            return Err(DispatchError::NotCommand);
        },
    };
    let is_command = match lookup_str(&ps, "type") {
        Some(t) => str_eq(t, "command"),
        None => false,
    };
    if !is_command {
        return Err(DispatchError::NotCommand);
    }
    let device_id = match lookup_str(&ps, "device_id") {
        Some(d) => d,
        None => {
            return Err(DispatchError::InvalidFormat);
        },
    };
    let topic = command_topic(device_id);
    if lookup_str(&ps, "channel").is_none() || lookup_str(&ps, "action").is_none() {
        return Err(DispatchError::InvalidFormat);
    }
    Ok((topic, String::from_str(raw)))
}

/// The string under the first occurrence of `key`, if it is one.
fn lookup_str<'a>(ps: &'a Vec<(String, JsonValue)>, key: &str) -> (r: Option<&'a str>)
    ensures
        match spec_lookup_string(crate::json::pairs_view(ps@), key@) {
            Some(s) => match r {
                Some(rs) => rs@ == s,
                None => false,
            },
            None => r is None,
        },
{
    let n = ps.len();
    proof {
        assert(crate::json::pairs_view(ps@).subrange(0, n as int) =~= crate::json::pairs_view(
            ps@,
        ));
    }
    let mut i: usize = 0;
    while i < n
        invariant
            0 <= i <= n,
            n == ps@.len(),
            spec_lookup(crate::json::pairs_view(ps@), key@) == spec_lookup(
                crate::json::pairs_view(ps@).subrange(i as int, n as int),
                key@,
            ),
        decreases n - i,
    {
        let ghost tail = crate::json::pairs_view(ps@).subrange(i as int, n as int);
        if str_eq(ps[i].0.as_str(), key) {
            assert(tail[0] == (ps@[i as int].0@, ps@[i as int].1@));
            match &ps[i].1 {
                JsonValue::S(s) => {
                    return Some(s.as_str());
                },
                JsonValue::I(_) => {
                    return None;
                },
            }
        }
        proof {
            assert(tail[0] == (ps@[i as int].0@, ps@[i as int].1@));
            assert(tail.subrange(1, tail.len() as int) =~= crate::json::pairs_view(ps@).subrange(
                i as int + 1,
                n as int,
            ));
        }
        i += 1;
    }
    proof {
        assert(crate::json::pairs_view(ps@).subrange(n as int, n as int) =~= Seq::<
            (Seq<char>, crate::json::JsonVal),
        >::empty());
    }
    None
}

} // verus!
