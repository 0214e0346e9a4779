//! Device telemetry: the record a device publishes on its telemetry
//! topic, its JSON wire form, and the verified parser used by the
//! ingestion path.

use vstd::prelude::*;
use vstd::string::*;
use crate::json::{
    pairs_view, parse_object, spec_dec_int, spec_escape, spec_json_string, spec_parse_object,
    JsonVal, JsonValue, append_json_string, append_i32,
};
use crate::strutil::str_eq;

verus! {

/// One telemetry sample.  Identity is `device_id`; a later sample for
/// the same id fully replaces the earlier one.  Temperature and
/// humidity are display-formatted text, as the devices publish them.
pub struct DeviceTelemetry {
    pub device_id: String,
    pub channel: String,
    pub temperature: String,
    pub humidity: String,
    pub signal_strength: i32,
    pub timestamp: String,
}

/// The mathematical value of a [`DeviceTelemetry`].
pub struct TelemetryView {
    pub device_id: Seq<char>,
    pub channel: Seq<char>,
    pub temperature: Seq<char>,
    pub humidity: Seq<char>,
    pub signal_strength: int,
    pub timestamp: Seq<char>,
}

impl View for DeviceTelemetry {
    type V = TelemetryView;

    open spec fn view(&self) -> TelemetryView {
        TelemetryView {
            device_id: self.device_id@,
            channel: self.channel@,
            temperature: self.temperature@,
            humidity: self.humidity@,
            signal_strength: self.signal_strength as int,
            timestamp: self.timestamp@,
        }
    }
}

impl Clone for DeviceTelemetry {
    /// Field-for-field copy.
    fn clone(&self) -> (r: Self)
        ensures
            r@ == self@,
    {
        DeviceTelemetry {
            device_id: self.device_id.clone(),
            channel: self.channel.clone(),
            temperature: self.temperature.clone(),
            humidity: self.humidity.clone(),
            signal_strength: self.signal_strength,
            timestamp: self.timestamp.clone(),
        }
    }
}

/// The value under the first occurrence of `key`, if any.
pub open spec fn spec_lookup(ps: Seq<(Seq<char>, JsonVal)>, key: Seq<char>) -> Option<JsonVal>
    decreases ps.len(),
{
    if ps.len() == 0 {
        None
    } else if ps[0].0 == key {
        Some(ps[0].1)
    } else {
        spec_lookup(ps.subrange(1, ps.len() as int), key)
    }
}

/// The string under `key`, if `key` holds a string.
pub open spec fn spec_lookup_string(ps: Seq<(Seq<char>, JsonVal)>, key: Seq<char>) -> Option<
    Seq<char>,
> {
    match spec_lookup(ps, key) {
        Some(JsonVal::S(s)) => Some(s),
        _ => None,
    }
}

/// The integer under `key`, if `key` holds an integer.
pub open spec fn spec_lookup_int(ps: Seq<(Seq<char>, JsonVal)>, key: Seq<char>) -> Option<int> {
    match spec_lookup(ps, key) {
        Some(JsonVal::I(v)) => Some(v),
        _ => None,
    }
}

/// Find the value under the first occurrence of `key`.
fn lookup<'a>(ps: &'a Vec<(String, JsonValue)>, key: &str) -> (r: Option<&'a JsonValue>)
    ensures
        match spec_lookup(pairs_view(ps@), key@) {
            Some(v) => match r {
                Some(rv) => rv@ == v,
                None => false,
            },
            None => r is None,
        },
{
    let n = ps.len();
    proof {
        assert(pairs_view(ps@).subrange(0, n as int) =~= pairs_view(ps@));
    }
    let mut i: usize = 0;
    while i < n
        invariant
            0 <= i <= n,
            n == ps@.len(),
            spec_lookup(pairs_view(ps@), key@) == spec_lookup(
                pairs_view(ps@).subrange(i as int, n as int),
                key@,
            ),
        decreases n - i,
    {
        let ghost tail = pairs_view(ps@).subrange(i as int, n as int);
        if str_eq(ps[i].0.as_str(), key) {
            assert(tail[0] == (ps@[i as int].0@, ps@[i as int].1@));
            return Some(&ps[i].1);
        }
        proof {
            assert(tail[0] == (ps@[i as int].0@, ps@[i as int].1@));
            assert(tail.subrange(1, tail.len() as int) =~= pairs_view(ps@).subrange(
                i as int + 1,
                n as int,
            ));
        }
        i += 1;
    }
    proof {
        assert(pairs_view(ps@).subrange(n as int, n as int) =~= Seq::<(Seq<char>, JsonVal)>::empty());
    }
    None
}

/// The telemetry record held in a parsed object, if the six fields
/// are present with the right kinds.  Extra fields are ignored; for a
/// repeated key the first occurrence wins.
pub open spec fn spec_telemetry_of_pairs(ps: Seq<(Seq<char>, JsonVal)>) -> Option<TelemetryView> {
    if spec_lookup_string(ps, "device_id"@) is Some && spec_lookup_string(ps, "channel"@) is Some
        && spec_lookup_string(ps, "temperature"@) is Some && spec_lookup_string(ps, "humidity"@)
        is Some && spec_lookup_int(ps, "signal_strength"@) is Some && spec_lookup_string(
        ps,
        "timestamp"@,
    ) is Some {
        Some(
            TelemetryView {
                device_id: spec_lookup_string(ps, "device_id"@)->0,
                channel: spec_lookup_string(ps, "channel"@)->0,
                temperature: spec_lookup_string(ps, "temperature"@)->0,
                humidity: spec_lookup_string(ps, "humidity"@)->0,
                signal_strength: spec_lookup_int(ps, "signal_strength"@)->0,
                timestamp: spec_lookup_string(ps, "timestamp"@)->0,
            },
        )
    } else {
        None
    }
}

/// What parsing a telemetry payload yields: the object's fields, or
/// nothing if the payload is not a flat JSON object with the six
/// telemetry fields.
pub open spec fn spec_parse_telemetry(s: Seq<char>) -> Option<TelemetryView> {
    match spec_parse_object(s) {
        Some(ps) => spec_telemetry_of_pairs(ps),
        None => None,
    }
}

/// Take an owned string out of a string-valued field.
fn string_of(v: &JsonValue) -> (r: Option<String>)
    ensures
        match v@ {
            JsonVal::S(s) => r is Some && r->0@ == s,
            JsonVal::I(_) => r is None,
        },
{
    match v {
        JsonValue::S(s) => Some(s.clone()),
        JsonValue::I(_) => None,
    }
}

/// Parse a telemetry payload.  Succeeds exactly on a flat JSON object
/// holding string `device_id`, `channel`, `temperature`, `humidity`
/// and `timestamp` fields and an integer `signal_strength`.
pub fn parse_telemetry(s: &str) -> (r: Option<DeviceTelemetry>)
    ensures
        match spec_parse_telemetry(s@) {
            Some(t) => match r {
                Some(rt) => rt@ == t,
                None => false,
            },
            None => r is None,
        },
{
    let ps = match parse_object(s) {
        Some(ps) => ps,
        None => {
            return None;
        },
    };
    let device_id = match lookup(&ps, "device_id") {
        Some(v) => match string_of(v) {
            Some(s) => s,
            None => {
                return None;
            },
        },
        None => {
            return None;
        },
    };
    let channel = match lookup(&ps, "channel") {
        Some(v) => match string_of(v) {
            Some(s) => s,
            None => {
                return None;
            },
        },
        None => {
            return None;
        },
    };
    let temperature = match lookup(&ps, "temperature") {
        Some(v) => match string_of(v) {
            Some(s) => s,
            None => {
                return None;
            },
        },
        None => {
            return None;
        },
    };
    let humidity = match lookup(&ps, "humidity") {
        Some(v) => match string_of(v) {
            Some(s) => s,
            None => {
                return None;
            },
        },
        None => {
            return None;
        },
    };
    let signal_strength = match lookup(&ps, "signal_strength") {
        Some(v) => match v {
            JsonValue::I(n) => *n,
            JsonValue::S(_) => {
                return None;
            },
        },
        None => {
            return None;
        },
    };
    let timestamp = match lookup(&ps, "timestamp") {
        Some(v) => match string_of(v) {
            Some(s) => s,
            None => {
                return None;
            },
        },
        None => {
            return None;
        },
    };
    Some(
        DeviceTelemetry {
            device_id,
            channel,
            temperature,
            humidity,
            signal_strength,
            timestamp,
        },
    )
}

/// The views of a telemetry vector.
pub open spec fn devices_view(s: Seq<DeviceTelemetry>) -> Seq<TelemetryView> {
    s.map(|i: int, d: DeviceTelemetry| d@)
}

/// The JSON wire form of a telemetry record, fields in publication
/// order.
pub open spec fn spec_telemetry_json(t: TelemetryView) -> Seq<char> {
    "{\"device_id\":"@ + spec_json_string(t.device_id) + ",\"channel\":"@ + spec_json_string(
        t.channel,
    ) + ",\"temperature\":"@ + spec_json_string(t.temperature) + ",\"humidity\":"@
        + spec_json_string(t.humidity) + ",\"signal_strength\":"@ + spec_dec_int(
        t.signal_strength,
    ) + ",\"timestamp\":"@ + spec_json_string(t.timestamp) + "}"@
}

/// Serialize a telemetry record to its JSON wire form.
pub fn telemetry_json(t: &DeviceTelemetry) -> (r: String)
    ensures
        r@ == spec_telemetry_json(t@),
{
    let mut out = String::from_str("{\"device_id\":");
    append_json_string(&mut out, t.device_id.as_str());
    out.append(",\"channel\":");
    append_json_string(&mut out, t.channel.as_str());
    out.append(",\"temperature\":");
    append_json_string(&mut out, t.temperature.as_str());
    out.append(",\"humidity\":");
    append_json_string(&mut out, t.humidity.as_str());
    out.append(",\"signal_strength\":");
    append_i32(&mut out, t.signal_strength);
    out.append(",\"timestamp\":");
    append_json_string(&mut out, t.timestamp.as_str());
    out.append("}");
    proof {
        assert(out@ =~= spec_telemetry_json(t@));
    }
    out
}

/// The six pairs a serialized telemetry record parses back into.
spec fn spec_telemetry_pairs(t: TelemetryView) -> Seq<(Seq<char>, JsonVal)> {
    seq![
        ("device_id"@, JsonVal::S(t.device_id)),
        ("channel"@, JsonVal::S(t.channel)),
        ("temperature"@, JsonVal::S(t.temperature)),
        ("humidity"@, JsonVal::S(t.humidity)),
        ("signal_strength"@, JsonVal::I(t.signal_strength)),
        ("timestamp"@, JsonVal::S(t.timestamp)),
    ]
}

/// Offsets of the tokens inside a serialized record: where each
/// field value starts (`tj_b*`) and where the separator before each
/// key stands (`tj_a*`).
spec fn tj_a2(t: TelemetryView) -> int {
    13 + spec_json_string(t.device_id).len() as int
}

spec fn tj_b2(t: TelemetryView) -> int {
    tj_a2(t) + 11
}

spec fn tj_a3(t: TelemetryView) -> int {
    tj_b2(t) + spec_json_string(t.channel).len() as int
}

spec fn tj_b3(t: TelemetryView) -> int {
    tj_a3(t) + 15
}

spec fn tj_a4(t: TelemetryView) -> int {
    tj_b3(t) + spec_json_string(t.temperature).len() as int
}

spec fn tj_b4(t: TelemetryView) -> int {
    tj_a4(t) + 12
}

spec fn tj_a5(t: TelemetryView) -> int {
    tj_b4(t) + spec_json_string(t.humidity).len() as int
}

spec fn tj_b5(t: TelemetryView) -> int {
    tj_a5(t) + 19
}

spec fn tj_a6(t: TelemetryView) -> int {
    tj_b5(t) + spec_dec_int(t.signal_strength).len() as int
}

spec fn tj_b6(t: TelemetryView) -> int {
    tj_a6(t) + 13
}

spec fn tj_a7(t: TelemetryView) -> int {
    tj_b6(t) + spec_json_string(t.timestamp).len() as int
}

/// The serialized record is long enough for every offset, opens with
/// a brace and closes with one.
spec fn tj_frame_layout(t: TelemetryView) -> bool {
    let w = spec_telemetry_json(t);
    &&& w.len() == tj_a7(t) + 1
    &&& w[0] == '{'
    &&& w[tj_a2(t)] == ','
    &&& w[tj_a3(t)] == ','
    &&& w[tj_a4(t)] == ','
    &&& w[tj_a5(t)] == ','
    &&& w[tj_a6(t)] == ','
    &&& w[tj_a7(t)] == '}'
}

/// The keys serialize to themselves inside their quotes.
proof fn lemma_tj_keys_plain()
    ensures
        spec_escape("device_id"@) == "device_id"@,
        spec_escape("channel"@) == "channel"@,
        spec_escape("temperature"@) == "temperature"@,
        spec_escape("humidity"@) == "humidity"@,
        spec_escape("signal_strength"@) == "signal_strength"@,
        spec_escape("timestamp"@) == "timestamp"@,
        spec_json_string("device_id"@).len() == 11,
        spec_json_string("channel"@).len() == 9,
        spec_json_string("temperature"@).len() == 13,
        spec_json_string("humidity"@).len() == 10,
        spec_json_string("signal_strength"@).len() == 17,
        spec_json_string("timestamp"@).len() == 11,
{
    reveal_strlit("device_id");
    reveal_strlit("channel");
    reveal_strlit("temperature");
    reveal_strlit("humidity");
    reveal_strlit("signal_strength");
    reveal_strlit("timestamp");
    crate::json::lemma_escape_plain("device_id"@);
    crate::json::lemma_escape_plain("channel"@);
    crate::json::lemma_escape_plain("temperature"@);
    crate::json::lemma_escape_plain("humidity"@);
    crate::json::lemma_escape_plain("signal_strength"@);
    crate::json::lemma_escape_plain("timestamp"@);
}

/// The frame braces and separators stand where the offsets say.
#[verifier::rlimit(100)]
#[verifier::spinoff_prover]
proof fn lemma_tj_frame(t: TelemetryView)
    ensures
        tj_frame_layout(t),
{
    reveal_strlit("{\"device_id\":");
    reveal_strlit(",\"channel\":");
    reveal_strlit(",\"temperature\":");
    reveal_strlit(",\"humidity\":");
    reveal_strlit(",\"signal_strength\":");
    reveal_strlit(",\"timestamp\":");
    reveal_strlit("}");
    let w = spec_telemetry_json(t);
    assert(w.len() == tj_a7(t) + 1);
    assert(w[0] == '{');
    assert(w[tj_a2(t)] == ',');
    assert(w[tj_a3(t)] == ',');
    assert(w[tj_a4(t)] == ',');
    assert(w[tj_a5(t)] == ',');
    assert(w[tj_a6(t)] == ',');
    assert(w[tj_a7(t)] == '}');
}

/// The first pair's tokens stand where the offsets say.
#[verifier::rlimit(100)]
#[verifier::spinoff_prover]
proof fn lemma_tj_layout_1(t: TelemetryView)
    ensures
        crate::json::spec_pair_layout(spec_telemetry_json(t), 0, "device_id"@, 13, spec_json_string(t.device_id)),
{
    reveal_strlit("{\"device_id\":");
    reveal_strlit("device_id");
    lemma_tj_keys_plain();
    let w = spec_telemetry_json(t);
    assert(w.subrange(1, 12) =~= spec_json_string("device_id"@));
    assert(w[12] == ':');
    assert(w.subrange(13, 13 + spec_json_string(t.device_id).len() as int) =~= spec_json_string(
        t.device_id,
    ));
}

/// The second pair's tokens stand where the offsets say.
#[verifier::rlimit(100)]
#[verifier::spinoff_prover]
proof fn lemma_tj_layout_2(t: TelemetryView)
    ensures
        crate::json::spec_pair_layout(spec_telemetry_json(t), tj_a2(t), "channel"@, tj_b2(t), spec_json_string(t.channel)),
{
    reveal_strlit("{\"device_id\":");
    reveal_strlit(",\"channel\":");
    reveal_strlit(",\"temperature\":");
    reveal_strlit(",\"humidity\":");
    reveal_strlit(",\"signal_strength\":");
    reveal_strlit(",\"timestamp\":");
    reveal_strlit("}");
    reveal_strlit("channel");
    lemma_tj_keys_plain();
    let w = spec_telemetry_json(t);
    let a = tj_a2(t);
    let b = tj_b2(t);
    assert(w.subrange(a + 1, b - 1) =~= spec_json_string("channel"@));
    assert(w[b - 1] == ':');
    assert(w.subrange(b, b + spec_json_string(t.channel).len()) =~= spec_json_string(t.channel));
}

/// The third pair's tokens stand where the offsets say.
#[verifier::rlimit(100)]
#[verifier::spinoff_prover]
proof fn lemma_tj_layout_3(t: TelemetryView)
    ensures
        crate::json::spec_pair_layout(spec_telemetry_json(t), tj_a3(t), "temperature"@, tj_b3(t), spec_json_string(t.temperature)),
{
    reveal_strlit("{\"device_id\":");
    reveal_strlit(",\"channel\":");
    reveal_strlit(",\"temperature\":");
    reveal_strlit(",\"humidity\":");
    reveal_strlit(",\"signal_strength\":");
    reveal_strlit(",\"timestamp\":");
    reveal_strlit("}");
    reveal_strlit("temperature");
    lemma_tj_keys_plain();
    let w = spec_telemetry_json(t);
    let a = tj_a3(t);
    let b = tj_b3(t);
    assert(w.subrange(a + 1, b - 1) =~= spec_json_string("temperature"@));
    assert(w[b - 1] == ':');
    assert(w.subrange(b, b + spec_json_string(t.temperature).len()) =~= spec_json_string(
        t.temperature,
    ));
}

/// The fourth pair's tokens stand where the offsets say.
#[verifier::rlimit(100)]
#[verifier::spinoff_prover]
proof fn lemma_tj_layout_4(t: TelemetryView)
    ensures
        crate::json::spec_pair_layout(spec_telemetry_json(t), tj_a4(t), "humidity"@, tj_b4(t), spec_json_string(t.humidity)),
{
    reveal_strlit("{\"device_id\":");
    reveal_strlit(",\"channel\":");
    reveal_strlit(",\"temperature\":");
    reveal_strlit(",\"humidity\":");
    reveal_strlit(",\"signal_strength\":");
    reveal_strlit(",\"timestamp\":");
    reveal_strlit("}");
    reveal_strlit("humidity");
    lemma_tj_keys_plain();
    let w = spec_telemetry_json(t);
    let a = tj_a4(t);
    let b = tj_b4(t);
    assert(w.subrange(a + 1, b - 1) =~= spec_json_string("humidity"@));
    assert(w[b - 1] == ':');
    assert(w.subrange(b, b + spec_json_string(t.humidity).len()) =~= spec_json_string(
        t.humidity,
    ));
}

/// The fifth pair's tokens stand where the offsets say.
#[verifier::rlimit(100)]
#[verifier::spinoff_prover]
proof fn lemma_tj_layout_5(t: TelemetryView)
    ensures
        crate::json::spec_pair_layout(spec_telemetry_json(t), tj_a5(t), "signal_strength"@, tj_b5(
            t,
        ), spec_dec_int(t.signal_strength)),
{
    reveal_strlit("{\"device_id\":");
    reveal_strlit(",\"channel\":");
    reveal_strlit(",\"temperature\":");
    reveal_strlit(",\"humidity\":");
    reveal_strlit(",\"signal_strength\":");
    reveal_strlit(",\"timestamp\":");
    reveal_strlit("}");
    reveal_strlit("signal_strength");
    lemma_tj_keys_plain();
    let w = spec_telemetry_json(t);
    let a = tj_a5(t);
    let b = tj_b5(t);
    assert(w.subrange(a + 1, b - 1) =~= spec_json_string("signal_strength"@));
    assert(w[b - 1] == ':');
    assert(w.subrange(b, b + spec_dec_int(t.signal_strength).len()) =~= spec_dec_int(
        t.signal_strength,
    ));
}

/// The sixth pair's tokens stand where the offsets say.
#[verifier::rlimit(100)]
#[verifier::spinoff_prover]
proof fn lemma_tj_layout_6(t: TelemetryView)
    ensures
        crate::json::spec_pair_layout(spec_telemetry_json(t), tj_a6(t), "timestamp"@, tj_b6(t), spec_json_string(t.timestamp)),
{
    reveal_strlit("{\"device_id\":");
    reveal_strlit(",\"channel\":");
    reveal_strlit(",\"temperature\":");
    reveal_strlit(",\"humidity\":");
    reveal_strlit(",\"signal_strength\":");
    reveal_strlit(",\"timestamp\":");
    reveal_strlit("}");
    reveal_strlit("timestamp");
    lemma_tj_keys_plain();
    let w = spec_telemetry_json(t);
    let a = tj_a6(t);
    let b = tj_b6(t);
    assert(w.subrange(a + 1, b - 1) =~= spec_json_string("timestamp"@));
    assert(w[b - 1] == ':');
    assert(w.subrange(b, b + spec_json_string(t.timestamp).len()) =~= spec_json_string(
        t.timestamp,
    ));
}

/// The quote that opens each key, at its boundary offset.
spec fn tj_boundaries(t: TelemetryView) -> bool {
    let w = spec_telemetry_json(t);
    &&& w[1] == '"'
    &&& w[tj_a2(t) + 1] == '"'
    &&& w[tj_a3(t) + 1] == '"'
    &&& w[tj_a4(t) + 1] == '"'
    &&& w[tj_a5(t) + 1] == '"'
    &&& w[tj_a6(t) + 1] == '"'
}

/// Each key opens with its quote.
#[verifier::rlimit(100)]
#[verifier::spinoff_prover]
proof fn lemma_tj_boundaries(t: TelemetryView)
    ensures
        tj_boundaries(t),
{
    lemma_tj_layout_1(t);
    lemma_tj_layout_2(t);
    lemma_tj_layout_3(t);
    lemma_tj_layout_4(t);
    lemma_tj_layout_5(t);
    lemma_tj_layout_6(t);
    let w = spec_telemetry_json(t);
    assert(w[1] == '"') by {
        assert(w.subrange(1, 12)[0] == w[1]);
    }
    assert(w[tj_a2(t) + 1] == '"') by {
        assert(w.subrange(tj_a2(t) + 1, tj_b2(t) - 1)[0] == w[tj_a2(t) + 1]);
    }
    assert(w[tj_a3(t) + 1] == '"') by {
        assert(w.subrange(tj_a3(t) + 1, tj_b3(t) - 1)[0] == w[tj_a3(t) + 1]);
    }
    assert(w[tj_a4(t) + 1] == '"') by {
        assert(w.subrange(tj_a4(t) + 1, tj_b4(t) - 1)[0] == w[tj_a4(t) + 1]);
    }
    assert(w[tj_a5(t) + 1] == '"') by {
        assert(w.subrange(tj_a5(t) + 1, tj_b5(t) - 1)[0] == w[tj_a5(t) + 1]);
    }
    assert(w[tj_a6(t) + 1] == '"') by {
        assert(w.subrange(tj_a6(t) + 1, tj_b6(t) - 1)[0] == w[tj_a6(t) + 1]);
    }
}

/// The six pairs fold into one comma-separated list.
#[verifier::rlimit(100)]
#[verifier::spinoff_prover]
proof fn lemma_tj_pairs_chain(t: TelemetryView)
    requires
        i32::MIN <= t.signal_strength <= i32::MAX,
    ensures
        crate::json::spec_parse_pairs(spec_telemetry_json(t), 1) == Some(
            (spec_telemetry_pairs(t), tj_a7(t)),
        ),
{
    lemma_tj_keys_plain();
    lemma_tj_frame(t);
    lemma_tj_boundaries(t);
    lemma_tj_layout_1(t);
    lemma_tj_layout_2(t);
    lemma_tj_layout_3(t);
    lemma_tj_layout_4(t);
    lemma_tj_layout_5(t);
    lemma_tj_layout_6(t);
    let w = spec_telemetry_json(t);
    crate::json::lemma_parse_string_pair_at(w, 0, "device_id"@, 13, t.device_id);
    crate::json::lemma_parse_string_pair_at(w, tj_a2(t), "channel"@, tj_b2(t), t.channel);
    crate::json::lemma_parse_string_pair_at(w, tj_a3(t), "temperature"@, tj_b3(t), t.temperature);
    crate::json::lemma_parse_string_pair_at(w, tj_a4(t), "humidity"@, tj_b4(t), t.humidity);
    assert(!crate::json::is_digit_char(w[tj_a6(t)]));
    crate::json::lemma_parse_int_pair_at(w, tj_a5(t), "signal_strength"@, tj_b5(t), t.signal_strength);
    crate::json::lemma_parse_string_pair_at(w, tj_a6(t), "timestamp"@, tj_b6(t), t.timestamp);
    let pr1 = ("device_id"@, JsonVal::S(t.device_id));
    let pr2 = ("channel"@, JsonVal::S(t.channel));
    let pr3 = ("temperature"@, JsonVal::S(t.temperature));
    let pr4 = ("humidity"@, JsonVal::S(t.humidity));
    let pr5 = ("signal_strength"@, JsonVal::I(t.signal_strength));
    let pr6 = ("timestamp"@, JsonVal::S(t.timestamp));
    assert(crate::json::spec_skip_ws(w, tj_a2(t)) == tj_a2(t));
    assert(crate::json::spec_skip_ws(w, tj_a2(t) + 1) == tj_a2(t) + 1);
    assert(crate::json::spec_skip_ws(w, tj_a3(t)) == tj_a3(t));
    assert(crate::json::spec_skip_ws(w, tj_a3(t) + 1) == tj_a3(t) + 1);
    assert(crate::json::spec_skip_ws(w, tj_a4(t)) == tj_a4(t));
    assert(crate::json::spec_skip_ws(w, tj_a4(t) + 1) == tj_a4(t) + 1);
    assert(crate::json::spec_skip_ws(w, tj_a5(t)) == tj_a5(t));
    assert(crate::json::spec_skip_ws(w, tj_a5(t) + 1) == tj_a5(t) + 1);
    assert(crate::json::spec_skip_ws(w, tj_a6(t)) == tj_a6(t));
    assert(crate::json::spec_skip_ws(w, tj_a6(t) + 1) == tj_a6(t) + 1);
    assert(crate::json::spec_skip_ws(w, tj_a7(t)) == tj_a7(t));
    assert(crate::json::spec_parse_pairs(w, tj_a6(t) + 1) == Some((seq![pr6], tj_a7(t))));
    assert(crate::json::spec_parse_pairs(w, tj_a5(t) + 1) == Some(
        (seq![pr5] + seq![pr6], tj_a7(t)),
    ));
    assert(crate::json::spec_parse_pairs(w, tj_a4(t) + 1) == Some(
        (seq![pr4] + (seq![pr5] + seq![pr6]), tj_a7(t)),
    ));
    assert(crate::json::spec_parse_pairs(w, tj_a3(t) + 1) == Some(
        (seq![pr3] + (seq![pr4] + (seq![pr5] + seq![pr6])), tj_a7(t)),
    ));
    assert(crate::json::spec_parse_pairs(w, tj_a2(t) + 1) == Some(
        (seq![pr2] + (seq![pr3] + (seq![pr4] + (seq![pr5] + seq![pr6]))), tj_a7(t)),
    ));
    assert(crate::json::spec_parse_pairs(w, 1) == Some(
        (seq![pr1] + (seq![pr2] + (seq![pr3] + (seq![pr4] + (seq![pr5] + seq![pr6])))), tj_a7(
            t,
        )),
    ));
    assert(seq![pr1] + (seq![pr2] + (seq![pr3] + (seq![pr4] + (seq![pr5] + seq![pr6]))))
        =~= spec_telemetry_pairs(t));
}

/// Parsing a serialized telemetry record yields exactly its six
/// fields, in publication order.
#[verifier::rlimit(100)]
#[verifier::spinoff_prover]
proof fn lemma_telemetry_json_parses(t: TelemetryView)
    requires
        i32::MIN <= t.signal_strength <= i32::MAX,
    ensures
        crate::json::spec_parse_object(spec_telemetry_json(t)) == Some(spec_telemetry_pairs(t)),
{
    lemma_tj_frame(t);
    lemma_tj_boundaries(t);
    lemma_tj_pairs_chain(t);
    let w = spec_telemetry_json(t);
    assert(crate::json::spec_skip_ws(w, 0) == 0);
    assert(crate::json::spec_skip_ws(w, 1) == 1);
    assert(w[1] != '}');
    assert(crate::json::spec_skip_ws(w, tj_a7(t) + 1) == tj_a7(t) + 1);
    assert(crate::json::spec_parse_object(w) == Some(spec_telemetry_pairs(t)));
}

/// The six parsed fields assemble back into the record.
proof fn lemma_telemetry_of_own_pairs(t: TelemetryView)
    ensures
        spec_telemetry_of_pairs(spec_telemetry_pairs(t)) == Some(t),
{
    reveal_strlit("device_id");
    reveal_strlit("channel");
    reveal_strlit("temperature");
    reveal_strlit("humidity");
    reveal_strlit("signal_strength");
    reveal_strlit("timestamp");
    let ps = spec_telemetry_pairs(t);
    assert("device_id"@.len() == 9 && "channel"@.len() == 7 && "temperature"@.len() == 11
        && "humidity"@.len() == 8 && "signal_strength"@.len() == 15 && "timestamp"@.len() == 9);
    assert("device_id"@[0] == 'd' && "timestamp"@[0] == 't');
    assert("device_id"@ != "channel"@);
    assert("device_id"@ != "temperature"@);
    assert("device_id"@ != "humidity"@);
    assert("device_id"@ != "signal_strength"@);
    assert("device_id"@[0] != "timestamp"@[0]);
    assert("channel"@ != "temperature"@);
    assert("channel"@ != "humidity"@);
    assert("channel"@ != "signal_strength"@);
    assert("channel"@ != "timestamp"@);
    assert("temperature"@ != "humidity"@);
    assert("temperature"@ != "signal_strength"@);
    assert("temperature"@ != "timestamp"@);
    assert("humidity"@ != "signal_strength"@);
    assert("humidity"@ != "timestamp"@);
    assert("signal_strength"@ != "timestamp"@);
    let q1 = seq![ps[1], ps[2], ps[3], ps[4], ps[5]];
    let q2 = seq![ps[2], ps[3], ps[4], ps[5]];
    let q3 = seq![ps[3], ps[4], ps[5]];
    let q4 = seq![ps[4], ps[5]];
    let q5 = seq![ps[5]];
    assert(ps.subrange(1, 6) =~= q1);
    assert(q1.subrange(1, 5) =~= q2);
    assert(q2.subrange(1, 4) =~= q3);
    assert(q3.subrange(1, 3) =~= q4);
    assert(q4.subrange(1, 2) =~= q5);
    assert(spec_lookup(ps, "device_id"@) == Some(JsonVal::S(t.device_id)));
    assert(spec_lookup(q1, "channel"@) == Some(JsonVal::S(t.channel)));
    assert(spec_lookup(ps, "channel"@) == Some(JsonVal::S(t.channel)));
    assert(spec_lookup(q2, "temperature"@) == Some(JsonVal::S(t.temperature)));
    assert(spec_lookup(q1, "temperature"@) == Some(JsonVal::S(t.temperature)));
    assert(spec_lookup(ps, "temperature"@) == Some(JsonVal::S(t.temperature)));
    assert(spec_lookup(q3, "humidity"@) == Some(JsonVal::S(t.humidity)));
    assert(spec_lookup(q2, "humidity"@) == Some(JsonVal::S(t.humidity)));
    assert(spec_lookup(q1, "humidity"@) == Some(JsonVal::S(t.humidity)));
    assert(spec_lookup(ps, "humidity"@) == Some(JsonVal::S(t.humidity)));
    assert(spec_lookup(q4, "signal_strength"@) == Some(JsonVal::I(t.signal_strength)));
    assert(spec_lookup(q3, "signal_strength"@) == Some(JsonVal::I(t.signal_strength)));
    assert(spec_lookup(q2, "signal_strength"@) == Some(JsonVal::I(t.signal_strength)));
    assert(spec_lookup(q1, "signal_strength"@) == Some(JsonVal::I(t.signal_strength)));
    assert(spec_lookup(ps, "signal_strength"@) == Some(JsonVal::I(t.signal_strength)));
    assert(spec_lookup(q5, "timestamp"@) == Some(JsonVal::S(t.timestamp)));
    assert(spec_lookup(q4, "timestamp"@) == Some(JsonVal::S(t.timestamp)));
    assert(spec_lookup(q3, "timestamp"@) == Some(JsonVal::S(t.timestamp)));
    assert(spec_lookup(q2, "timestamp"@) == Some(JsonVal::S(t.timestamp)));
    assert(spec_lookup(q1, "timestamp"@) == Some(JsonVal::S(t.timestamp)));
    assert(spec_lookup(ps, "timestamp"@) == Some(JsonVal::S(t.timestamp)));
}

/// The codec round trip: a serialized telemetry record parses back to
/// itself, for every record whose signal strength fits the signed
/// 32-bit range (every executable record does).
pub proof fn lemma_telemetry_round_trip(t: TelemetryView)
    requires
        i32::MIN <= t.signal_strength <= i32::MAX,
    ensures
        spec_parse_telemetry(spec_telemetry_json(t)) == Some(t),
{
    lemma_telemetry_json_parses(t);
    lemma_telemetry_of_own_pairs(t);
}

/// The command topic for a device.
pub fn command_topic(device_id: &str) -> (r: String)
    ensures
        r@ == "pozor-dom/hub/command/"@ + device_id@,
{
    let mut s = String::from_str("pozor-dom/hub/command/");
    s.append(device_id);
    s
}

/// The telemetry topic for a device.
pub fn telemetry_topic(device_id: &str) -> (r: String)
    ensures
        r@ == "pozor-dom/device/"@ + device_id@ + "/telemetry"@,
{
    let mut s = String::from_str("pozor-dom/device/");
    s.append(device_id);
    s.append("/telemetry");
    s
}

} // verus!
