//! The interactive terminal client's state and key handling: the
//! input line, command history, device targeting, and the decision of
//! what to send for each keystroke.  Rendering and the socket itself
//! live outside the library; they hand keys in and carry the returned
//! actions out.

use vstd::prelude::*;
use vstd::string::*;
use crate::clock::now_hms;
use crate::json::{append_json_string, spec_escape, spec_json_string, JsonVal};
use crate::strutil::{
    pop_char, push_char, spec_tokens, spec_trim, split_ws, str_eq, str_starts_with, str_trim,
    seq_starts_with, strings_view,
};

verus! {

/// How many messages the client's log keeps.
pub const CLIENT_LOG_CAPACITY: usize = 100;

/// How many input lines the history keeps.
pub const HISTORY_CAPACITY: usize = 50;

/// A keystroke the client reacts to.
#[derive(Clone, Copy, PartialEq, Eq, Structural, Debug)]
pub enum KeyInput {
    Enter,
    Up,
    Down,
    Backspace,
    Esc,
    Tab,
    Char(char),
}

/// What the surrounding loop must do after a keystroke.
#[derive(Debug)]
pub enum ClientAction {
    /// Nothing to send.
    Idle,
    /// Send the text as a chat frame.
    SendText(String),
    /// Send the JSON command frame.
    SendCommand(String),
    /// Leave the client.
    Quit,
}

/// The client's state.
pub struct AppState {
    pub messages: Vec<String>,
    pub input: String,
    pub input_history: Vec<String>,
    pub history_index: Option<usize>,
    pub connected: bool,
    pub server_url: String,
    pub device_id: Option<String>,
    pub channel: Option<String>,
}

/// The view of an optional string.
pub open spec fn opt_view(o: Option<String>) -> Option<Seq<char>> {
    match o {
        Some(s) => Some(s@),
        None => None,
    }
}

/// Well-formedness: the log and history hold their capacity bounds,
/// and the history cursor points into the history.
pub open spec fn app_wf(s: &AppState) -> bool {
    &&& s.messages@.len() <= CLIENT_LOG_CAPACITY as int
    &&& s.input_history@.len() <= HISTORY_CAPACITY as int
    &&& match s.history_index {
        Some(i) => i < s.input_history@.len(),
        None => true,
    }
}

/// Appending to a log bounded at `cap`, oldest entry evicted first.
pub open spec fn spec_capped_push(ms: Seq<Seq<char>>, line: Seq<char>, cap: int) -> Seq<
    Seq<char>,
> {
    if ms.len() < cap {
        ms.push(line)
    } else {
        ms.subrange(1, ms.len() as int).push(line)
    }
}

/// A log line: the timestamp in brackets, then the message.
pub open spec fn spec_stamped(ts: Seq<char>, msg: Seq<char>) -> Seq<char> {
    "["@ + ts + "] "@ + msg
}

/// The JSON command frame the client sends.
pub open spec fn spec_command_json(
    device_id: Seq<char>,
    channel: Seq<char>,
    action: Seq<char>,
    ts: Seq<char>,
) -> Seq<char> {
    "{\"type\":\"command\",\"device_id\":"@ + spec_json_string(device_id) + ",\"channel\":"@
        + spec_json_string(channel) + ",\"action\":"@ + spec_json_string(action)
        + ",\"timestamp\":"@ + spec_json_string(ts) + "}"@
}

/// Serialize a command frame.
pub fn command_json(device_id: &str, channel: &str, action: &str, ts: &str) -> (r: String)
    ensures
        r@ == spec_command_json(device_id@, channel@, action@, ts@),
{
    let mut out = String::from_str("{\"type\":\"command\",\"device_id\":");
    append_json_string(&mut out, device_id);
    out.append(",\"channel\":");
    append_json_string(&mut out, channel);
    out.append(",\"action\":");
    append_json_string(&mut out, action);
    out.append(",\"timestamp\":");
    append_json_string(&mut out, ts);
    out.append("}");
    proof {
        assert(out@ =~= spec_command_json(device_id@, channel@, action@, ts@));
    }
    out
}

/// Offsets of the tokens inside a command frame: where each field
/// value starts (`cj_b*`) and where the separator before each key
/// stands (`cj_a*`).
spec fn cj_a3(id: Seq<char>) -> int {
    30 + spec_json_string(id).len() as int
}

spec fn cj_b3(id: Seq<char>) -> int {
    cj_a3(id) + 11
}

spec fn cj_a4(id: Seq<char>, ch: Seq<char>) -> int {
    cj_b3(id) + spec_json_string(ch).len() as int
}

spec fn cj_b4(id: Seq<char>, ch: Seq<char>) -> int {
    cj_a4(id, ch) + 10
}

spec fn cj_a5(id: Seq<char>, ch: Seq<char>, act: Seq<char>) -> int {
    cj_b4(id, ch) + spec_json_string(act).len() as int
}

spec fn cj_b5(id: Seq<char>, ch: Seq<char>, act: Seq<char>) -> int {
    cj_a5(id, ch, act) + 13
}

spec fn cj_a6(id: Seq<char>, ch: Seq<char>, act: Seq<char>, ts: Seq<char>) -> int {
    cj_b5(id, ch, act) + spec_json_string(ts).len() as int
}

/// The keys of a command frame serialize to themselves.
proof fn lemma_cj_keys_plain()
    ensures
        spec_escape("type"@) == "type"@,
        spec_escape("command"@) == "command"@,
        spec_escape("device_id"@) == "device_id"@,
        spec_escape("channel"@) == "channel"@,
        spec_escape("action"@) == "action"@,
        spec_escape("timestamp"@) == "timestamp"@,
        spec_json_string("type"@).len() == 6,
        spec_json_string("command"@).len() == 9,
        spec_json_string("device_id"@).len() == 11,
        spec_json_string("channel"@).len() == 9,
        spec_json_string("action"@).len() == 8,
        spec_json_string("timestamp"@).len() == 11,
{
    reveal_strlit("type");
    reveal_strlit("command");
    reveal_strlit("device_id");
    reveal_strlit("channel");
    reveal_strlit("action");
    reveal_strlit("timestamp");
    crate::json::lemma_escape_plain("type"@);
    crate::json::lemma_escape_plain("command"@);
    crate::json::lemma_escape_plain("device_id"@);
    crate::json::lemma_escape_plain("channel"@);
    crate::json::lemma_escape_plain("action"@);
    crate::json::lemma_escape_plain("timestamp"@);
}

/// The frame braces and separators of a command frame stand where
/// the offsets say.
#[verifier::rlimit(100)]
#[verifier::spinoff_prover]
proof fn lemma_cj_frame(id: Seq<char>, ch: Seq<char>, act: Seq<char>, ts: Seq<char>)
    ensures
        ({
            let w = spec_command_json(id, ch, act, ts);
            &&& w.len() == cj_a6(id, ch, act, ts) + 1
            &&& w[0] == '{'
            &&& w[17] == ','
            &&& w[cj_a3(id)] == ','
            &&& w[cj_a4(id, ch)] == ','
            &&& w[cj_a5(id, ch, act)] == ','
            &&& w[cj_a6(id, ch, act, ts)] == '}'
        }),
{
    reveal_strlit("{\"type\":\"command\",\"device_id\":");
    reveal_strlit(",\"channel\":");
    reveal_strlit(",\"action\":");
    reveal_strlit(",\"timestamp\":");
    reveal_strlit("}");
    let w = spec_command_json(id, ch, act, ts);
    assert(w.len() == cj_a6(id, ch, act, ts) + 1);
    assert(w[0] == '{');
    assert(w[17] == ',');
    assert(w[cj_a3(id)] == ',');
    assert(w[cj_a4(id, ch)] == ',');
    assert(w[cj_a5(id, ch, act)] == ',');
    assert(w[cj_a6(id, ch, act, ts)] == '}');
}

/// The five pairs of a command frame stand where the offsets say.
#[verifier::rlimit(100)]
#[verifier::spinoff_prover]
proof fn lemma_cj_layout(id: Seq<char>, ch: Seq<char>, act: Seq<char>, ts: Seq<char>)
    ensures
        ({
            let w = spec_command_json(id, ch, act, ts);
            &&& crate::json::spec_pair_layout(w, 0, "type"@, 8, spec_json_string("command"@))
            &&& crate::json::spec_pair_layout(w, 17, "device_id"@, 30, spec_json_string(id))
            &&& crate::json::spec_pair_layout(w, cj_a3(id), "channel"@, cj_b3(id),
                spec_json_string(ch))
            &&& crate::json::spec_pair_layout(w, cj_a4(id, ch), "action"@, cj_b4(id, ch),
                spec_json_string(act))
            &&& crate::json::spec_pair_layout(w, cj_a5(id, ch, act), "timestamp"@, cj_b5(
                id,
                ch,
                act,
            ), spec_json_string(ts))
        }),
{
    reveal_strlit("{\"type\":\"command\",\"device_id\":");
    reveal_strlit(",\"channel\":");
    reveal_strlit(",\"action\":");
    reveal_strlit(",\"timestamp\":");
    reveal_strlit("}");
    reveal_strlit("type");
    reveal_strlit("command");
    reveal_strlit("device_id");
    reveal_strlit("channel");
    reveal_strlit("action");
    reveal_strlit("timestamp");
    lemma_cj_keys_plain();
    let w = spec_command_json(id, ch, act, ts);
    assert(w.subrange(1, 7) =~= spec_json_string("type"@));
    assert(w[7] == ':');
    assert(w.subrange(8, 17) =~= spec_json_string("command"@));
    assert(w.subrange(18, 29) =~= spec_json_string("device_id"@));
    assert(w[29] == ':');
    assert(w.subrange(30, 30 + spec_json_string(id).len() as int) =~= spec_json_string(id));
    assert(w.subrange(cj_a3(id) + 1, cj_b3(id) - 1) =~= spec_json_string("channel"@));
    assert(w[cj_b3(id) - 1] == ':');
    assert(w.subrange(cj_b3(id), cj_b3(id) + spec_json_string(ch).len() as int)
        =~= spec_json_string(ch));
    assert(w.subrange(cj_a4(id, ch) + 1, cj_b4(id, ch) - 1) =~= spec_json_string("action"@));
    assert(w[cj_b4(id, ch) - 1] == ':');
    assert(w.subrange(cj_b4(id, ch), cj_b4(id, ch) + spec_json_string(act).len() as int)
        =~= spec_json_string(act));
    assert(w.subrange(cj_a5(id, ch, act) + 1, cj_b5(id, ch, act) - 1) =~= spec_json_string(
        "timestamp"@,
    ));
    assert(w[cj_b5(id, ch, act) - 1] == ':');
    assert(w.subrange(cj_b5(id, ch, act), cj_b5(id, ch, act) + spec_json_string(ts).len() as int)
        =~= spec_json_string(ts));
}

/// The five pairs of a command frame fold into one list.
#[verifier::rlimit(100)]
#[verifier::spinoff_prover]
proof fn lemma_cj_pairs(id: Seq<char>, ch: Seq<char>, act: Seq<char>, ts: Seq<char>)
    ensures
        crate::json::spec_parse_object(spec_command_json(id, ch, act, ts)) == Some(
            seq![
                ("type"@, JsonVal::S("command"@)),
                ("device_id"@, JsonVal::S(id)),
                ("channel"@, JsonVal::S(ch)),
                ("action"@, JsonVal::S(act)),
                ("timestamp"@, JsonVal::S(ts)),
            ],
        ),
{
    lemma_cj_keys_plain();
    lemma_cj_frame(id, ch, act, ts);
    lemma_cj_layout(id, ch, act, ts);
    let w = spec_command_json(id, ch, act, ts);
    crate::json::lemma_parse_string_pair_at(w, 0, "type"@, 8, "command"@);
    crate::json::lemma_parse_string_pair_at(w, 17, "device_id"@, 30, id);
    crate::json::lemma_parse_string_pair_at(w, cj_a3(id), "channel"@, cj_b3(id), ch);
    crate::json::lemma_parse_string_pair_at(w, cj_a4(id, ch), "action"@, cj_b4(id, ch), act);
    crate::json::lemma_parse_string_pair_at(w, cj_a5(id, ch, act), "timestamp"@, cj_b5(
        id,
        ch,
        act,
    ), ts);
    let pr1 = ("type"@, JsonVal::S("command"@));
    let pr2 = ("device_id"@, JsonVal::S(id));
    let pr3 = ("channel"@, JsonVal::S(ch));
    let pr4 = ("action"@, JsonVal::S(act));
    let pr5 = ("timestamp"@, JsonVal::S(ts));
    assert(w[1] == '"') by {
        assert(w.subrange(1, 7)[0] == w[1]);
    }
    assert(w[18] == '"') by {
        assert(w.subrange(18, 29)[0] == w[18]);
    }
    assert(w[cj_a3(id) + 1] == '"') by {
        assert(w.subrange(cj_a3(id) + 1, cj_b3(id) - 1)[0] == w[cj_a3(id) + 1]);
    }
    assert(w[cj_a4(id, ch) + 1] == '"') by {
        assert(w.subrange(cj_a4(id, ch) + 1, cj_b4(id, ch) - 1)[0] == w[cj_a4(id, ch) + 1]);
    }
    assert(w[cj_a5(id, ch, act) + 1] == '"') by {
        assert(w.subrange(cj_a5(id, ch, act) + 1, cj_b5(id, ch, act) - 1)[0] == w[cj_a5(
            id,
            ch,
            act,
        ) + 1]);
    }
    assert(crate::json::spec_skip_ws(w, 17) == 17);
    assert(crate::json::spec_skip_ws(w, 18) == 18);
    assert(crate::json::spec_skip_ws(w, cj_a3(id)) == cj_a3(id));
    assert(crate::json::spec_skip_ws(w, cj_a3(id) + 1) == cj_a3(id) + 1);
    assert(crate::json::spec_skip_ws(w, cj_a4(id, ch)) == cj_a4(id, ch));
    assert(crate::json::spec_skip_ws(w, cj_a4(id, ch) + 1) == cj_a4(id, ch) + 1);
    assert(crate::json::spec_skip_ws(w, cj_a5(id, ch, act)) == cj_a5(id, ch, act));
    assert(crate::json::spec_skip_ws(w, cj_a5(id, ch, act) + 1) == cj_a5(id, ch, act) + 1);
    assert(crate::json::spec_skip_ws(w, cj_a6(id, ch, act, ts)) == cj_a6(id, ch, act, ts));
    assert(crate::json::spec_parse_pairs(w, cj_a5(id, ch, act) + 1) == Some(
        (seq![pr5], cj_a6(id, ch, act, ts)),
    ));
    assert(crate::json::spec_parse_pairs(w, cj_a4(id, ch) + 1) == Some(
        (seq![pr4] + seq![pr5], cj_a6(id, ch, act, ts)),
    ));
    assert(crate::json::spec_parse_pairs(w, cj_a3(id) + 1) == Some(
        (seq![pr3] + (seq![pr4] + seq![pr5]), cj_a6(id, ch, act, ts)),
    ));
    assert(crate::json::spec_parse_pairs(w, 18) == Some(
        (seq![pr2] + (seq![pr3] + (seq![pr4] + seq![pr5])), cj_a6(id, ch, act, ts)),
    ));
    assert(crate::json::spec_parse_pairs(w, 1) == Some(
        (seq![pr1] + (seq![pr2] + (seq![pr3] + (seq![pr4] + seq![pr5]))), cj_a6(
            id,
            ch,
            act,
            ts,
        )),
    ));
    assert(seq![pr1] + (seq![pr2] + (seq![pr3] + (seq![pr4] + seq![pr5]))) =~= seq![
        pr1,
        pr2,
        pr3,
        pr4,
        pr5,
    ]);
    assert(crate::json::spec_skip_ws(w, 0) == 0);
    assert(crate::json::spec_skip_ws(w, 1) == 1);
    assert(w[1] != '}');
    assert(crate::json::spec_skip_ws(w, cj_a6(id, ch, act, ts) + 1) == cj_a6(id, ch, act, ts)
        + 1);
}

/// Every command frame the client builds is routed by the hub's
/// dispatcher to the addressed device's command topic, the frame
/// forwarded unchanged — whatever the target, action and timestamp.
#[verifier::rlimit(100)]
#[verifier::spinoff_prover]
pub proof fn lemma_command_round_trip(
    device_id: Seq<char>,
    channel: Seq<char>,
    action: Seq<char>,
    ts: Seq<char>,
)
    ensures
        crate::commands::spec_dispatch(spec_command_json(device_id, channel, action, ts)) == Ok::<
            (Seq<char>, Seq<char>),
            crate::commands::DispatchError,
        >(
            (
                "pozor-dom/hub/command/"@ + device_id,
                spec_command_json(device_id, channel, action, ts),
            ),
        ),
{
    reveal_strlit("type");
    reveal_strlit("command");
    reveal_strlit("device_id");
    reveal_strlit("channel");
    reveal_strlit("action");
    reveal_strlit("timestamp");
    lemma_cj_pairs(device_id, channel, action, ts);
    let ps = seq![
        ("type"@, JsonVal::S("command"@)),
        ("device_id"@, JsonVal::S(device_id)),
        ("channel"@, JsonVal::S(channel)),
        ("action"@, JsonVal::S(action)),
        ("timestamp"@, JsonVal::S(ts)),
    ];
    let q1 = seq![ps[1], ps[2], ps[3], ps[4]];
    let q2 = seq![ps[2], ps[3], ps[4]];
    let q3 = seq![ps[3], ps[4]];
    assert("type"@.len() == 4 && "device_id"@.len() == 9 && "channel"@.len() == 7
        && "action"@.len() == 6 && "timestamp"@.len() == 9);
    assert("device_id"@[0] == 'd' && "timestamp"@[0] == 't');
    assert("device_id"@ != "timestamp"@);
    assert(ps.subrange(1, 5) =~= q1);
    assert(q1.subrange(1, 4) =~= q2);
    assert(q2.subrange(1, 3) =~= q3);
    assert(crate::telemetry::spec_lookup(ps, "type"@) == Some(JsonVal::S("command"@)));
    assert(crate::telemetry::spec_lookup(q1, "device_id"@) == Some(JsonVal::S(device_id)));
    assert(crate::telemetry::spec_lookup(ps, "device_id"@) == Some(JsonVal::S(device_id)));
    assert(crate::telemetry::spec_lookup(q2, "channel"@) == Some(JsonVal::S(channel)));
    assert(crate::telemetry::spec_lookup(q1, "channel"@) == Some(JsonVal::S(channel)));
    assert(crate::telemetry::spec_lookup(ps, "channel"@) == Some(JsonVal::S(channel)));
    assert(crate::telemetry::spec_lookup(q3, "action"@) == Some(JsonVal::S(action)));
    assert(crate::telemetry::spec_lookup(q2, "action"@) == Some(JsonVal::S(action)));
    assert(crate::telemetry::spec_lookup(q1, "action"@) == Some(JsonVal::S(action)));
    assert(crate::telemetry::spec_lookup(ps, "action"@) == Some(JsonVal::S(action)));
}

impl AppState {
    /// A fresh client aimed at `server_url`, with the greeting line
    /// already in the log.
    pub fn new(server_url: String) -> (r: Self)
        ensures
            r.messages@.len() == 1,
            r.messages@[0]@ == "Pozor-dom Client starting..."@,
            r.input@.len() == 0,
            r.input_history@.len() == 0,
            r.history_index is None,
            r.connected == false,
            r.server_url@ == server_url@,
            r.device_id is None,
            r.channel is None,
            app_wf(&r),
    {
        let mut messages: Vec<String> = Vec::new();
        messages.push(String::from_str("Pozor-dom Client starting..."));
        AppState {
            messages,
            input: String::new(),
            input_history: Vec::new(),
            history_index: None,
            connected: false,
            server_url,
            device_id: None,
            channel: None,
        }
    }

    /// Append a timestamped line to the rolling log.
    pub fn add_message(&mut self, msg: String)
        requires
            app_wf(old(self)),
        ensures
            app_wf(final(self)),
            exists|ts: Seq<char>|
                strings_view(final(self).messages@) == spec_capped_push(
                    strings_view(old(self).messages@),
                    spec_stamped(ts, msg@),
                    CLIENT_LOG_CAPACITY as int,
                ),
            final(self).input@ == old(self).input@,
            final(self).input_history@ == old(self).input_history@,
            final(self).history_index == old(self).history_index,
            final(self).connected == old(self).connected,
            final(self).server_url@ == old(self).server_url@,
            final(self).device_id == old(self).device_id,
            final(self).channel == old(self).channel,
    {
        let ts = now_hms();
        let ghost tsv = ts@;
        let mut line = String::from_str("[");
        line.append(ts.as_str());
        line.append("] ");
        line.append(msg.as_str());
        proof {
            assert(line@ =~= spec_stamped(tsv, msg@));
        }
        let ghost before = strings_view(self.messages@);
        self.messages.push(line);
        if self.messages.len() > CLIENT_LOG_CAPACITY {
            self.messages.remove(0);
            proof {
                assert(strings_view(self.messages@) =~= before.subrange(
                    1,
                    before.len() as int,
                ).push(spec_stamped(tsv, msg@)));
            }
        } else {
            proof {
                assert(strings_view(self.messages@) =~= before.push(spec_stamped(tsv, msg@)));
            }
        }
    }
}

/// Push one line onto the bounded input history.
fn history_push(history: &mut Vec<String>, line: String)
    requires
        old(history)@.len() <= HISTORY_CAPACITY as int,
    ensures
        final(history)@.len() <= HISTORY_CAPACITY as int,
        strings_view(final(history)@) == spec_capped_push(
            strings_view(old(history)@),
            line@,
            HISTORY_CAPACITY as int,
        ),
{
    let ghost before = strings_view(history@);
    let ghost linev = line@;
    history.push(line);
    if history.len() > HISTORY_CAPACITY {
        history.remove(0);
        proof {
            assert(strings_view(history@) =~= before.subrange(1, before.len() as int).push(
                linev,
            ));
        }
    } else {
        proof {
            assert(strings_view(history@) =~= before.push(linev));
        }
    }
}

/// React to one keystroke: edit the input line, walk the history,
/// autocomplete, or — on enter — log and hand back what to send.
///
/// An entered line starting `/device ` with at least two arguments
/// retargets the client; one starting `/send ` with a target set
/// becomes a command frame; any other non-blank line is sent as
/// chat.  A blank line does nothing.
pub fn handle_key(state: &mut AppState, key: KeyInput) -> (r: ClientAction)
    requires
        app_wf(old(state)),
    ensures
        app_wf(final(state)),
        final(state).connected == old(state).connected,
        final(state).server_url@ == old(state).server_url@,
        match key {
            KeyInput::Esc => *final(state) == *old(state) && (r is Quit),
            KeyInput::Char(c) => ({
                &&& final(state).input@ == old(state).input@.push(c)
                &&& final(state).history_index is None
                &&& final(state).messages@ == old(state).messages@
                &&& final(state).input_history@ == old(state).input_history@
                &&& final(state).device_id == old(state).device_id
                &&& final(state).channel == old(state).channel
                &&& (r is Idle)
            }),
            KeyInput::Backspace => ({
                &&& final(state).input@ == (if old(state).input@.len() > 0 {
                    old(state).input@.drop_last()
                } else {
                    old(state).input@
                })
                &&& final(state).history_index is None
                &&& final(state).messages@ == old(state).messages@
                &&& final(state).input_history@ == old(state).input_history@
                &&& final(state).device_id == old(state).device_id
                &&& final(state).channel == old(state).channel
                &&& (r is Idle)
            }),
            KeyInput::Up => ({
                let hist = old(state).input_history@;
                &&& (hist.len() == 0 ==> *final(state) == *old(state))
                &&& (hist.len() > 0 ==> ({
                    let ni = match old(state).history_index {
                        Some(i) => if i > 0 {
                            i as int - 1
                        } else {
                            hist.len() - 1
                        },
                        None => hist.len() - 1,
                    };
                    &&& final(state).history_index == Some(ni as usize)
                    &&& final(state).input@ == hist[ni]@
                    &&& final(state).messages@ == old(state).messages@
                    &&& final(state).input_history@ == hist
                    &&& final(state).device_id == old(state).device_id
                    &&& final(state).channel == old(state).channel
                }))
                &&& (r is Idle)
            }),
            KeyInput::Down => ({
                let hist = old(state).input_history@;
                &&& (match old(state).history_index {
                    Some(ci) => {
                        if (ci as int) < hist.len() - 1 {
                            &&& final(state).history_index == Some((ci + 1) as usize)
                            &&& final(state).input@ == hist[ci as int + 1]@
                        } else {
                            &&& final(state).history_index is None
                            &&& final(state).input@.len() == 0
                        }
                    },
                    None => *final(state) == *old(state),
                }
                )
                &&& final(state).messages@ == old(state).messages@
                &&& final(state).input_history@ == hist
                &&& final(state).device_id == old(state).device_id
                &&& final(state).channel == old(state).channel
                &&& (r is Idle)
            }),
            KeyInput::Tab => ({
                &&& final(state).input@ == (if old(state).input@ == "/device "@ {
                    "/device device-wifi-001 wifi"@
                } else if old(state).input@ == "/send "@ {
                    "/send get_temperature"@
                } else {
                    old(state).input@
                })
                &&& final(state).messages@ == old(state).messages@
                &&& final(state).input_history@ == old(state).input_history@
                &&& final(state).history_index == old(state).history_index
                &&& final(state).device_id == old(state).device_id
                &&& final(state).channel == old(state).channel
                &&& (r is Idle)
            }),
            KeyInput::Enter => ({
                let inp = old(state).input@;
                if spec_trim(inp).len() == 0 {
                    *final(state) == *old(state) && (r is Idle)
                } else {
                    &&& final(state).history_index is None
                    &&& strings_view(final(state).input_history@) == spec_capped_push(
                        strings_view(old(state).input_history@),
                        inp,
                        HISTORY_CAPACITY as int,
                    )
                    &&& final(state).input@.len() == 0
                    &&& if seq_starts_with(inp, "/device "@) {
                        let parts = spec_tokens(inp);
                        if parts.len() >= 3 {
                            &&& opt_view(final(state).device_id) == Some(parts[1])
                            &&& opt_view(final(state).channel) == Some(parts[2])
                            &&& exists|ts: Seq<char>|
                                strings_view(final(state).messages@) == spec_capped_push(
                                    strings_view(old(state).messages@),
                                    spec_stamped(
                                        ts,
                                        "Set target: "@ + parts[1] + " on "@ + parts[2]
                                            + " channel"@,
                                    ),
                                    CLIENT_LOG_CAPACITY as int,
                                )
                            &&& (r is Idle)
                        } else {
                            &&& final(state).device_id == old(state).device_id
                            &&& final(state).channel == old(state).channel
                            &&& final(state).messages@ == old(state).messages@
                            &&& (r is Idle)
                        }
                    } else if seq_starts_with(inp, "/send "@) {
                        let action = inp.subrange("/send "@.len() as int, inp.len() as int);
                        if old(state).device_id is Some && old(state).channel is Some {
                            let id = opt_view(old(state).device_id)->0;
                            let ch = opt_view(old(state).channel)->0;
                            &&& final(state).device_id == old(state).device_id
                            &&& final(state).channel == old(state).channel
                            &&& exists|ts: Seq<char>|
                                strings_view(final(state).messages@) == spec_capped_push(
                                    strings_view(old(state).messages@),
                                    spec_stamped(
                                        ts,
                                        "Sending command: "@ + action + " to "@ + id + " ("@ + ch
                                            + ")"@,
                                    ),
                                    CLIENT_LOG_CAPACITY as int,
                                )
                            &&& match r {
                                ClientAction::SendCommand(p) => exists|ts: Seq<char>|
                                    p@ == spec_command_json(id, ch, action, ts),
                                _ => false,
                            }
                        } else {
                            &&& final(state).device_id == old(state).device_id
                            &&& final(state).channel == old(state).channel
                            &&& exists|ts: Seq<char>|
                                strings_view(final(state).messages@) == spec_capped_push(
                                    strings_view(old(state).messages@),
                                    spec_stamped(
                                        ts,
                                        "Error: Set device first with /device <id> <channel>. Use: wifi, ble, zigbee"@,
                                    ),
                                    CLIENT_LOG_CAPACITY as int,
                                )
                            &&& (r is Idle)
                        }
                    } else {
                        &&& final(state).device_id == old(state).device_id
                        &&& final(state).channel == old(state).channel
                        &&& exists|ts: Seq<char>|
                            strings_view(final(state).messages@) == spec_capped_push(
                                strings_view(old(state).messages@),
                                spec_stamped(ts, "Sending: "@ + inp),
                                CLIENT_LOG_CAPACITY as int,
                            )
                        &&& match r {
                            ClientAction::SendText(t) => t@ == inp,
                            _ => false,
                        }
                    }
                }
            }),
        },
{
    match key {
        KeyInput::Esc => ClientAction::Quit,
        KeyInput::Char(c) => {
            push_char(&mut state.input, c);
            state.history_index = None;
            ClientAction::Idle
        },
        KeyInput::Backspace => {
            pop_char(&mut state.input);
            state.history_index = None;
            ClientAction::Idle
        },
        KeyInput::Up => {
            let n = state.input_history.len();
            if n > 0 {
                let ni: usize = match state.history_index {
                    Some(i) => if i > 0 {
                        i - 1
                    } else {
                        n - 1
                    },
                    None => n - 1,
                };
                state.history_index = Some(ni);
                state.input = state.input_history[ni].clone();
            }
            ClientAction::Idle
        },
        KeyInput::Down => {
            let n = state.input_history.len();
            match state.history_index {
                Some(ci) => {
                    if ci + 1 < n {
                        state.history_index = Some(ci + 1);
                        state.input = state.input_history[ci + 1].clone();
                    } else {
                        state.history_index = None;
                        state.input = String::new();
                    }
                },
                None => {},
            }
            ClientAction::Idle
        },
        KeyInput::Tab => {
            if str_eq(state.input.as_str(), "/device ") {
                state.input = String::from_str("/device device-wifi-001 wifi");
            } else if str_eq(state.input.as_str(), "/send ") {
                state.input = String::from_str("/send get_temperature");
            }
            ClientAction::Idle
        },
        KeyInput::Enter => handle_enter(state),
    }
}

/// The enter-key decision, on the current input line.
#[verifier::rlimit(100)]
#[verifier::spinoff_prover]
fn handle_enter(state: &mut AppState) -> (r: ClientAction)
    requires
        app_wf(old(state)),
    ensures
        app_wf(final(state)),
        final(state).connected == old(state).connected,
        final(state).server_url@ == old(state).server_url@,
        spec_trim(old(state).input@).len() == 0 ==> *final(state) == *old(state) && (r is Idle),
        spec_trim(old(state).input@).len() != 0 ==> ({
            &&& final(state).history_index is None
            &&& strings_view(final(state).input_history@) == spec_capped_push(
                strings_view(old(state).input_history@),
                old(state).input@,
                HISTORY_CAPACITY as int,
            )
            &&& final(state).input@.len() == 0
        }),
        (spec_trim(old(state).input@).len() != 0 && seq_starts_with(
            old(state).input@,
            "/device "@,
        ) && spec_tokens(old(state).input@).len() >= 3) ==> ({
            let parts = spec_tokens(old(state).input@);
            &&& opt_view(final(state).device_id) == Some(parts[1])
            &&& opt_view(final(state).channel) == Some(parts[2])
            &&& exists|ts: Seq<char>|
                strings_view(final(state).messages@) == spec_capped_push(
                    strings_view(old(state).messages@),
                    spec_stamped(
                        ts,
                        "Set target: "@ + parts[1] + " on "@ + parts[2] + " channel"@,
                    ),
                    CLIENT_LOG_CAPACITY as int,
                )
            &&& (r is Idle)
        }),
        (spec_trim(old(state).input@).len() != 0 && seq_starts_with(
            old(state).input@,
            "/device "@,
        ) && spec_tokens(old(state).input@).len() < 3) ==> ({
            &&& final(state).device_id == old(state).device_id
            &&& final(state).channel == old(state).channel
            &&& final(state).messages@ == old(state).messages@
            &&& (r is Idle)
        }),
        (spec_trim(old(state).input@).len() != 0 && !seq_starts_with(
            old(state).input@,
            "/device "@,
        ) && seq_starts_with(old(state).input@, "/send "@) && old(state).device_id is Some && old(
            state,
        ).channel is Some) ==> ({
            let action = old(state).input@.subrange(
                "/send "@.len() as int,
                old(state).input@.len() as int,
            );
            let id = opt_view(old(state).device_id)->0;
            let ch = opt_view(old(state).channel)->0;
            &&& final(state).device_id == old(state).device_id
            &&& final(state).channel == old(state).channel
            &&& exists|ts: Seq<char>|
                strings_view(final(state).messages@) == spec_capped_push(
                    strings_view(old(state).messages@),
                    spec_stamped(
                        ts,
                        "Sending command: "@ + action + " to "@ + id + " ("@ + ch + ")"@,
                    ),
                    CLIENT_LOG_CAPACITY as int,
                )
            &&& match r {
                ClientAction::SendCommand(p) => exists|ts: Seq<char>|
                    p@ == spec_command_json(id, ch, action, ts),
                _ => false,
            }
        }),
        (spec_trim(old(state).input@).len() != 0 && !seq_starts_with(
            old(state).input@,
            "/device "@,
        ) && seq_starts_with(old(state).input@, "/send "@) && !(old(state).device_id is Some
            && old(state).channel is Some)) ==> ({
            &&& final(state).device_id == old(state).device_id
            &&& final(state).channel == old(state).channel
            &&& exists|ts: Seq<char>|
                strings_view(final(state).messages@) == spec_capped_push(
                    strings_view(old(state).messages@),
                    spec_stamped(
                        ts,
                        "Error: Set device first with /device <id> <channel>. Use: wifi, ble, zigbee"@,
                    ),
                    CLIENT_LOG_CAPACITY as int,
                )
            &&& (r is Idle)
        }),
        (spec_trim(old(state).input@).len() != 0 && !seq_starts_with(
            old(state).input@,
            "/device "@,
        ) && !seq_starts_with(old(state).input@, "/send "@)) ==> ({
            &&& final(state).device_id == old(state).device_id
            &&& final(state).channel == old(state).channel
            &&& exists|ts: Seq<char>|
                strings_view(final(state).messages@) == spec_capped_push(
                    strings_view(old(state).messages@),
                    spec_stamped(ts, "Sending: "@ + old(state).input@),
                    CLIENT_LOG_CAPACITY as int,
                )
            &&& match r {
                ClientAction::SendText(t) => t@ == old(state).input@,
                _ => false,
            }
        }),
{
    let trimmed_empty = str_trim(state.input.as_str()).is_empty();
    if trimmed_empty {
        return ClientAction::Idle;
    }
    let input = state.input.clone();
    history_push(&mut state.input_history, input.clone());
    state.history_index = None;
    state.input = String::new();
    if str_starts_with(input.as_str(), "/device ") {
        let parts = split_ws(input.as_str());
        if parts.len() >= 3 {
            let ghost partsv = spec_tokens(input@);
            state.device_id = Some(parts[1].clone());
            state.channel = Some(parts[2].clone());
            let mut m = String::from_str("Set target: ");
            m.append(parts[1].as_str());
            m.append(" on ");
            m.append(parts[2].as_str());
            m.append(" channel");
            proof {
                assert(m@ =~= "Set target: "@ + partsv[1] + " on "@ + partsv[2] + " channel"@);
            }
            state.add_message(m);
            proof {
                assert(exists|ts: Seq<char>|
                    strings_view(state.messages@) == spec_capped_push(
                        strings_view(old(state).messages@),
                        spec_stamped(
                            ts,
                            "Set target: "@ + partsv[1] + " on "@ + partsv[2] + " channel"@,
                        ),
                        CLIENT_LOG_CAPACITY as int,
                    ));
            }
        }
        ClientAction::Idle
    } else if str_starts_with(input.as_str(), "/send ") {
        let pl = "/send ".unicode_len();
        let action = input.as_str().substring_char(pl, input.as_str().unicode_len());
        if state.device_id.is_some() && state.channel.is_some() {
            let id = match &state.device_id {
                Some(d) => d.clone(),
                None => String::new(),
            };
            let ch = match &state.channel {
                Some(c) => c.clone(),
                None => String::new(),
            };
            let ts = now_hms();
            let ghost tsv = ts@;
            let payload = command_json(id.as_str(), ch.as_str(), action, ts.as_str());
            proof {
                let actionv = input@.subrange("/send "@.len() as int, input@.len() as int);
                let idv = opt_view(old(state).device_id)->0;
                let chv = opt_view(old(state).channel)->0;
                assert(id@ == idv);
                assert(ch@ == chv);
                assert(action@ == actionv);
                assert(payload@ == spec_command_json(idv, chv, actionv, tsv));
                assert(exists|t2: Seq<char>| payload@ == spec_command_json(idv, chv, actionv, t2));
            }
            let mut m = String::from_str("Sending command: ");
            m.append(action);
            m.append(" to ");
            m.append(id.as_str());
            m.append(" (");
            m.append(ch.as_str());
            m.append(")");
            proof {
                assert(m@ =~= "Sending command: "@ + input@.subrange(
                    "/send "@.len() as int,
                    input@.len() as int,
                ) + " to "@ + id@ + " ("@ + ch@ + ")"@);
            }
            state.add_message(m);
            proof {
                assert(exists|ts2: Seq<char>|
                    strings_view(state.messages@) == spec_capped_push(
                        strings_view(old(state).messages@),
                        spec_stamped(
                            ts2,
                            "Sending command: "@ + input@.subrange(
                                "/send "@.len() as int,
                                input@.len() as int,
                            ) + " to "@ + id@ + " ("@ + ch@ + ")"@,
                        ),
                        CLIENT_LOG_CAPACITY as int,
                    ));
            }
            ClientAction::SendCommand(payload)
        } else {
            state.add_message(
                String::from_str(
                    "Error: Set device first with /device <id> <channel>. Use: wifi, ble, zigbee",
                ),
            );
            ClientAction::Idle
        }
    } else {
        let mut m = String::from_str("Sending: ");
        m.append(input.as_str());
        state.add_message(m);
        proof {
            assert(exists|ts: Seq<char>|
                strings_view(state.messages@) == spec_capped_push(
                    strings_view(old(state).messages@),
                    spec_stamped(ts, "Sending: "@ + input@),
                    CLIENT_LOG_CAPACITY as int,
                ));
        }
        ClientAction::SendText(input)
    }
}

} // verus!
