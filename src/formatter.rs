use vstd::prelude::*;

use crate::loglevel::level_name;
use crate::message::{id_of, DupView, DuplicatedMessages, Message, MessageView};
use crate::time::{clock_text, decimal_digit, rfc3339_of, Timestamp};

verus! {

/// The JSON string literal serde_json writes for a text: quoted and escaped.
pub uninterp spec fn json_quoted(s: Seq<char>) -> Seq<char>;

/// A natural number in decimal, without leading zeros.
pub open spec fn decimal(n: nat) -> Seq<char>
    decreases n,
{
    if n < 10 {
        seq![decimal_digit(n as int)]
    } else {
        decimal(n / 10).push(decimal_digit((n % 10) as int))
    }
}

/// Relies on `String::push_str`: the text is appended.
#[verifier::external_body]
fn push_text(s: &mut String, t: &str)
    ensures
        final(s)@ == old(s)@ + t@,
{
    s.push_str(t)
}

/// Relies on serde_json's display of `Value::String`: the text as a JSON string.
#[verifier::external_body]
fn json_quote(s: &str) -> (r: String)
    ensures
        r@ == json_quoted(s@),
{
    serde_json::Value::String(s.to_owned()).to_string()
}

/// Relies on serde_json's display of a `Value` made from a `u64`: its decimal digits.
#[verifier::external_body]
fn json_number(n: u64) -> (r: String)
    ensures
        r@ == decimal(n as nat),
{
    serde_json::Value::from(n).to_string()
}

pub open spec fn ts_text(t: Timestamp) -> Seq<char> {
    rfc3339_of(t.secs, t.nanos, t.offset)
}

/// One message as a compact JSON object, keys in sorted order.
pub open spec fn json_line(m: MessageView) -> Seq<char> {
    "{\"level\":"@ + json_quoted(level_name(m.level)) + ",\"msg\":"@ + json_quoted(m.text)
        + ",\"msg_id\":"@ + decimal(id_of(m.level, m.text) as nat) + ",\"ts\":"@
        + json_quoted(ts_text(m.timestamp)) + "}"@
}

/// An aggregate as a compact JSON object, keys in sorted order: the span's
/// start under `ts`, its end under `te`, the count under `msg_dup`.
pub open spec fn json_dup_line(d: DupView) -> Seq<char> {
    let m = d.message;
    "{\"level\":"@ + json_quoted(level_name(m.level)) + ",\"msg\":"@ + json_quoted(m.text)
        + ",\"msg_dup\":"@ + decimal(d.count) + ",\"msg_id\":"@ + decimal(id_of(m.level, m.text) as nat)
        + ",\"te\":"@ + json_quoted(ts_text(d.end)) + ",\"ts\":"@ + json_quoted(ts_text(d.start))
        + "}"@
}

/// `HH:MM:SS [LEVEL] text`.
pub open spec fn console_line(m: MessageView) -> Seq<char> {
    clock_text(m.timestamp.secs, m.timestamp.nanos, m.timestamp.offset) + " ["@ + level_name(m.level)
        + "] "@ + m.text
}

/// The console line of the aggregate's start and latest message, with a
/// duplicate marker.
pub open spec fn console_dup_line(d: DupView) -> Seq<char> {
    clock_text(d.start.secs, d.start.nanos, d.start.offset) + " ["@ + level_name(d.message.level)
        + "] "@ + d.message.text + " (Duplicated"@
}

/// Renders messages and aggregates as output lines.
pub trait Formatter {
    fn to_line(&self, msg: &Message) -> String
        requires
            msg.wf(),
    ;

    fn to_dup_line(&self, dm: &DuplicatedMessages) -> String
        requires
            dm.wf(),
    ;
}

/// Renders one JSON object per line.
pub struct JsonFormatter {}

impl Formatter for JsonFormatter {
    fn to_line(&self, msg: &Message) -> (r: String)
        ensures
            r@ == json_line(msg@),
    {
        let mut line = String::new();
        push_text(&mut line, "{\"level\":");
        let q = json_quote(msg.level.name().as_str());
        push_text(&mut line, q.as_str());
        push_text(&mut line, ",\"msg\":");
        let q = json_quote(msg.message.as_str());
        push_text(&mut line, q.as_str());
        push_text(&mut line, ",\"msg_id\":");
        let n = json_number(msg.message_id());
        push_text(&mut line, n.as_str());
        push_text(&mut line, ",\"ts\":");
        let q = json_quote(msg.timestamp.to_rfc3339().as_str());
        push_text(&mut line, q.as_str());
        push_text(&mut line, "}");
        line
    }

    fn to_dup_line(&self, dm: &DuplicatedMessages) -> (r: String)
        ensures
            r@ == json_dup_line(dm@),
    {
        let msg = dm.message();
        let (ts, te) = dm.time_range();
        let mut line = String::new();
        push_text(&mut line, "{\"level\":");
        let q = json_quote(msg.level.name().as_str());
        push_text(&mut line, q.as_str());
        push_text(&mut line, ",\"msg\":");
        let q = json_quote(msg.message.as_str());
        push_text(&mut line, q.as_str());
        push_text(&mut line, ",\"msg_dup\":");
        let n = json_number(dm.count());
        push_text(&mut line, n.as_str());
        push_text(&mut line, ",\"msg_id\":");
        let n = json_number(msg.message_id());
        push_text(&mut line, n.as_str());
        push_text(&mut line, ",\"te\":");
        let q = json_quote(te.to_rfc3339().as_str());
        push_text(&mut line, q.as_str());
        push_text(&mut line, ",\"ts\":");
        let q = json_quote(ts.to_rfc3339().as_str());
        push_text(&mut line, q.as_str());
        push_text(&mut line, "}");
        line
    }
}

/// Renders human-readable lines led by the local time of day.
pub struct ConsoleFormatter {}

impl Formatter for ConsoleFormatter {
    fn to_line(&self, msg: &Message) -> (r: String)
        ensures
            r@ == console_line(msg@),
    {
        let mut line = msg.timestamp.clock();
        push_text(&mut line, " [");
        push_text(&mut line, msg.level.name().as_str());
        push_text(&mut line, "] ");
        push_text(&mut line, msg.message.as_str());
        line
    }

    fn to_dup_line(&self, dm: &DuplicatedMessages) -> (r: String)
        ensures
            r@ == console_dup_line(dm@),
    {
        let msg = dm.message();
        let (ts, _) = dm.time_range();
        let mut line = ts.clock();
        push_text(&mut line, " [");
        push_text(&mut line, msg.level.name().as_str());
        push_text(&mut line, "] ");
        push_text(&mut line, msg.message.as_str());
        push_text(&mut line, " (Duplicated");
        line
    }
}

} // verus!
