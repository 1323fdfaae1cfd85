use vstd::prelude::*;

use crate::json::{field, get_field, json_of, parse_json, JsonValue};
use crate::model::TokenUsage;

verus! {

/// The usage counters of an assistant message, each where the line gave it.
#[derive(Debug, Clone, Copy, PartialEq, Eq, Structural)]
pub struct MessageUsage {
    pub input_tokens: Option<u64>,
    pub output_tokens: Option<u64>,
    pub cache_creation_input_tokens: Option<u64>,
    pub cache_read_input_tokens: Option<u64>,
}

/// The message of a log line.
#[derive(Debug)]
pub struct LogMessage {
    pub model: Option<String>,
    pub usage: Option<MessageUsage>,
}

/// One log line, decoded; what it does not hold is `None`.
#[derive(Debug)]
pub struct LogEntry {
    pub entry_type: Option<String>,
    pub message: Option<LogMessage>,
    pub timestamp: Option<String>,
    pub session_id: Option<String>,
    pub cwd: Option<String>,
}

/// An assistant turn: the model that answered and the tokens it used.
#[derive(Debug)]
pub struct ParsedEntry {
    pub model: String,
    pub tokens: TokenUsage,
    pub timestamp: String,
    pub session_id: String,
    pub cwd: String,
}

pub struct ParsedEntryView {
    pub model: Seq<char>,
    pub tokens: TokenUsage,
    pub timestamp: Seq<char>,
    pub session_id: Seq<char>,
    pub cwd: Seq<char>,
}

impl View for ParsedEntry {
    type V = ParsedEntryView;

    open spec fn view(&self) -> ParsedEntryView {
        ParsedEntryView {
            model: self.model@,
            tokens: self.tokens,
            timestamp: self.timestamp@,
            session_id: self.session_id@,
            cwd: self.cwd@,
        }
    }
}

/// The views of a sequence of entries.
pub open spec fn views(s: Seq<ParsedEntry>) -> Seq<ParsedEntryView> {
    s.map_values(|p: ParsedEntry| p@)
}

/// An optional text member: `Some(None)` where it is missing or null,
/// `None` where it holds anything but text.
pub open spec fn opt_text(f: Option<JsonValue>) -> Option<Option<String>> {
    match f {
        None => Some(None),
        Some(JsonValue::Null) => Some(None),
        Some(JsonValue::Str(s)) => Some(Some(s)),
        _ => None,
    }
}

/// An optional counter: `Some(None)` where it is missing or null, `None`
/// where it holds anything but a whole number that fits in `u64`.
pub open spec fn opt_count(f: Option<JsonValue>) -> Option<Option<u64>> {
    match f {
        None => Some(None),
        Some(JsonValue::Null) => Some(None),
        Some(JsonValue::Number(Some(n))) => Some(Some(n)),
        _ => None,
    }
}

pub open spec fn decode_usage(v: JsonValue) -> Option<MessageUsage> {
    match v {
        JsonValue::Object(_) => {
            let i = opt_count(field(v, "input_tokens"@));
            let o = opt_count(field(v, "output_tokens"@));
            let c = opt_count(field(v, "cache_creation_input_tokens"@));
            let r = opt_count(field(v, "cache_read_input_tokens"@));
            if i is Some && o is Some && c is Some && r is Some {
                Some(
                    MessageUsage {
                        input_tokens: i.unwrap(),
                        output_tokens: o.unwrap(),
                        cache_creation_input_tokens: c.unwrap(),
                        cache_read_input_tokens: r.unwrap(),
                    },
                )
            } else {
                None
            }
        },
        _ => None,
    }
}

/// An optional usage block, in the manner of `opt_text`.
pub open spec fn opt_usage(f: Option<JsonValue>) -> Option<Option<MessageUsage>> {
    match f {
        None => Some(None),
        Some(JsonValue::Null) => Some(None),
        Some(v) => match decode_usage(v) {
            Some(u) => Some(Some(u)),
            None => None,
        },
    }
}

pub open spec fn decode_message(v: JsonValue) -> Option<LogMessage> {
    match v {
        JsonValue::Object(_) => {
            let m = opt_text(field(v, "model"@));
            let u = opt_usage(field(v, "usage"@));
            if m is Some && u is Some {
                Some(LogMessage { model: m.unwrap(), usage: u.unwrap() })
            } else {
                None
            }
        },
        _ => None,
    }
}

/// An optional message, in the manner of `opt_text`.
pub open spec fn opt_message(f: Option<JsonValue>) -> Option<Option<LogMessage>> {
    match f {
        None => Some(None),
        Some(JsonValue::Null) => Some(None),
        Some(v) => match decode_message(v) {
            Some(m) => Some(Some(m)),
            None => None,
        },
    }
}

/// A log line's object decoded into its known members; `None` where the value
/// is no object or a known member has the wrong kind of value.
pub open spec fn decode_entry(v: JsonValue) -> Option<LogEntry> {
    match v {
        JsonValue::Object(_) => {
            let t = opt_text(field(v, "type"@));
            let m = opt_message(field(v, "message"@));
            let ts = opt_text(field(v, "timestamp"@));
            let sid = opt_text(field(v, "sessionId"@));
            let cwd = opt_text(field(v, "cwd"@));
            if t is Some && m is Some && ts is Some && sid is Some && cwd is Some {
                Some(
                    LogEntry {
                        entry_type: t.unwrap(),
                        message: m.unwrap(),
                        timestamp: ts.unwrap(),
                        session_id: sid.unwrap(),
                        cwd: cwd.unwrap(),
                    },
                )
            } else {
                None
            }
        },
        _ => None,
    }
}

/// The entry that a line of text holds, if it is JSON of the right shape.
pub open spec fn line_entry(line: Seq<char>) -> Option<LogEntry> {
    match json_of(line) {
        Some(v) => decode_entry(v),
        None => None,
    }
}

pub open spec fn text_or_empty(s: Option<String>) -> Seq<char> {
    match s {
        Some(t) => t@,
        None => Seq::empty(),
    }
}

pub open spec fn count_or_zero(n: Option<u64>) -> u64 {
    match n {
        Some(k) => k,
        None => 0,
    }
}

pub open spec fn tokens_of(u: MessageUsage) -> TokenUsage {
    TokenUsage {
        input_tokens: count_or_zero(u.input_tokens),
        output_tokens: count_or_zero(u.output_tokens),
        cache_creation_input_tokens: count_or_zero(u.cache_creation_input_tokens),
        cache_read_input_tokens: count_or_zero(u.cache_read_input_tokens),
    }
}

pub open spec fn is_assistant(e: LogEntry) -> bool {
    e.entry_type is Some && e.entry_type.unwrap()@ == "assistant"@
}

/// The assistant turn that an entry records, with `cwd` as its working
/// directory: only for an assistant entry whose message names a model and
/// holds a usage block.
pub open spec fn assistant_record(e: LogEntry, cwd: Seq<char>) -> Option<ParsedEntryView> {
    if is_assistant(e) && e.message is Some && e.message.unwrap().model is Some
        && e.message.unwrap().usage is Some {
        Some(
            ParsedEntryView {
                model: e.message.unwrap().model.unwrap()@,
                tokens: tokens_of(e.message.unwrap().usage.unwrap()),
                timestamp: text_or_empty(e.timestamp),
                session_id: text_or_empty(e.session_id),
                cwd,
            },
        )
    } else {
        None
    }
}

/// The working directory in force after the lines: that of the last entry
/// which named one, empty where none did.
pub open spec fn cwd_after(lines: Seq<String>) -> Seq<char>
    decreases lines.len(),
{
    if lines.len() == 0 {
        Seq::empty()
    } else {
        match line_entry(lines.last()@) {
            Some(e) => match e.cwd {
                Some(c) => c@,
                None => cwd_after(lines.drop_last()),
            },
            None => cwd_after(lines.drop_last()),
        }
    }
}

/// The assistant turns that the lines of one log file record, in order.
pub open spec fn parsed_lines(lines: Seq<String>) -> Seq<ParsedEntryView>
    decreases lines.len(),
{
    if lines.len() == 0 {
        Seq::empty()
    } else {
        let prev = parsed_lines(lines.drop_last());
        match line_entry(lines.last()@) {
            Some(e) => match assistant_record(e, cwd_after(lines)) {
                Some(p) => prev.push(p),
                None => prev,
            },
            None => prev,
        }
    }
}

fn text_member(v: &JsonValue, key: &str) -> (r: Option<Option<String>>)
    ensures
        r == opt_text(field(*v, key@)),
{
    match get_field(v, key) {
        None => Some(None),
        Some(JsonValue::Null) => Some(None),
        Some(JsonValue::Str(s)) => Some(Some(s.clone())),
        Some(_) => None,
    }
}

fn count_member(v: &JsonValue, key: &str) -> (r: Option<Option<u64>>)
    ensures
        r == opt_count(field(*v, key@)),
{
    match get_field(v, key) {
        None => Some(None),
        Some(JsonValue::Null) => Some(None),
        Some(JsonValue::Number(Some(n))) => Some(Some(*n)),
        Some(_) => None,
    }
}

fn decode_usage_exec(v: &JsonValue) -> (r: Option<MessageUsage>)
    ensures
        r == decode_usage(*v),
{
    match v {
        JsonValue::Object(_) => {
            let i = count_member(v, "input_tokens");
            let o = count_member(v, "output_tokens");
            let c = count_member(v, "cache_creation_input_tokens");
            let r = count_member(v, "cache_read_input_tokens");
            match (i, o, c, r) {
                (Some(i), Some(o), Some(c), Some(r)) => Some(
                    MessageUsage {
                        input_tokens: i,
                        output_tokens: o,
                        cache_creation_input_tokens: c,
                        cache_read_input_tokens: r,
                    },
                ),
                _ => None,
            }
        },
        _ => None,
    }
}

fn decode_message_exec(v: &JsonValue) -> (r: Option<LogMessage>)
    ensures
        r == decode_message(*v),
{
    match v {
        JsonValue::Object(_) => {
            let m = text_member(v, "model");
            let u = match get_field(v, "usage") {
                None => Some(None),
                Some(JsonValue::Null) => Some(None),
                Some(x) => match decode_usage_exec(x) {
                    Some(u) => Some(Some(u)),
                    None => None,
                },
            };
            match (m, u) {
                (Some(m), Some(u)) => Some(LogMessage { model: m, usage: u }),
                _ => None,
            }
        },
        _ => None,
    }
}

/// Decodes the known members of a log line's value.
pub fn decode_log_entry(v: &JsonValue) -> (r: Option<LogEntry>)
    ensures
        r == decode_entry(*v),
{
    match v {
        JsonValue::Object(_) => {
            let t = text_member(v, "type");
            let m = match get_field(v, "message") {
                None => Some(None),
                Some(JsonValue::Null) => Some(None),
                Some(x) => match decode_message_exec(x) {
                    Some(m) => Some(Some(m)),
                    None => None,
                },
            };
            let ts = text_member(v, "timestamp");
            let sid = text_member(v, "sessionId");
            let cwd = text_member(v, "cwd");
            match (t, m, ts, sid, cwd) {
                (Some(t), Some(m), Some(ts), Some(sid), Some(cwd)) => Some(
                    LogEntry { entry_type: t, message: m, timestamp: ts, session_id: sid, cwd },
                ),
                _ => None,
            }
        },
        _ => None,
    }
}

fn text_or_empty_exec(s: Option<String>) -> (r: String)
    ensures
        r@ == text_or_empty(s),
{
    match s {
        Some(t) => t,
        None => String::new(),
    }
}

fn count_or_zero_exec(n: Option<u64>) -> (r: u64)
    ensures
        r == count_or_zero(n),
{
    match n {
        Some(k) => k,
        None => 0,
    }
}

fn record_of(e: LogEntry, cwd: &String) -> (r: Option<ParsedEntry>)
    ensures
        r is Some == assistant_record(e, cwd@) is Some,
        r is Some ==> r.unwrap()@ == assistant_record(e, cwd@).unwrap(),
{
    let ghost e0 = e;
    let is_asst = match &e.entry_type {
        Some(t) => crate::text::str_eq(t.as_str(), "assistant"),
        None => false,
    };
    if !is_asst {
        return None;
    }
    match e.message {
        Some(LogMessage { model: Some(model), usage: Some(u) }) => {
            let tokens = TokenUsage {
                input_tokens: count_or_zero_exec(u.input_tokens),
                output_tokens: count_or_zero_exec(u.output_tokens),
                cache_creation_input_tokens: count_or_zero_exec(u.cache_creation_input_tokens),
                cache_read_input_tokens: count_or_zero_exec(u.cache_read_input_tokens),
            };
            let timestamp = text_or_empty_exec(e.timestamp);
            let session_id = text_or_empty_exec(e.session_id);
            Some(ParsedEntry { model, tokens, timestamp, session_id, cwd: cwd.clone() })
        },
        _ => None,
    }
}

/// The assistant turns recorded in the lines of one log file. Lines that are
/// not JSON, not of the expected shape, not assistant turns or without a
/// model and usage block are skipped; an entry without a working directory
/// takes the last one that an earlier line of the file named.
pub fn parse_usage_from_file(lines: &Vec<String>) -> (r: Vec<ParsedEntry>)
    ensures
        views(r@) == parsed_lines(lines@),
{
    let mut out: Vec<ParsedEntry> = Vec::new();
    let mut last_cwd = String::new();
    let mut i: usize = 0;
    assert(views(out@) =~= Seq::<ParsedEntryView>::empty());
    while i < lines.len()
        invariant
            i <= lines@.len(),
            views(out@) == parsed_lines(lines@.subrange(0, i as int)),
            last_cwd@ == cwd_after(lines@.subrange(0, i as int)),
        decreases lines@.len() - i,
    {
        let ghost pre = lines@.subrange(0, i + 1);
        assert(pre.drop_last() =~= lines@.subrange(0, i as int));
        assert(pre.last() == lines@[i as int]);
        match parse_json(lines[i].as_str()) {
            None => {},
            Some(v) => match decode_log_entry(&v) {
                None => {},
                Some(e) => {
                    if let Some(c) = &e.cwd {
                        last_cwd = c.clone();
                    }
                    match record_of(e, &last_cwd) {
                        Some(p) => {
                            assert(views(out@.push(p)) =~= views(out@).push(p@));
                            out.push(p);
                        },
                        None => {},
                    }
                },
            },
        }
        i += 1;
    }
    assert(lines@.subrange(0, lines@.len() as int) =~= lines@);
    out
}

/// A content block tagged as text.
pub open spec fn is_text_block(b: JsonValue) -> bool {
    match field(b, "type"@) {
        Some(JsonValue::Str(s)) => s@ == "text"@,
        _ => false,
    }
}

/// Content written by a person: plain text, or a list of blocks with at
/// least one text block (not tool results alone).
pub open spec fn is_genuine_content(c: JsonValue) -> bool {
    match c {
        JsonValue::Str(_) => true,
        JsonValue::Array(a) => exists|i: int| 0 <= i < a@.len() && is_text_block(#[trigger] a@[i]),
        _ => false,
    }
}

pub open spec fn is_user(v: JsonValue) -> bool {
    match field(v, "type"@) {
        Some(JsonValue::Str(s)) => s@ == "user"@,
        _ => false,
    }
}

pub open spec fn content_of(v: JsonValue) -> Option<JsonValue> {
    match field(v, "message"@) {
        Some(m) => field(m, "content"@),
        None => None,
    }
}

/// The timestamp of a user entry whose content is a genuine prompt.
pub open spec fn prompt_timestamp_of(v: JsonValue) -> Option<String> {
    if is_user(v) && content_of(v) is Some && is_genuine_content(content_of(v).unwrap()) {
        match field(v, "timestamp"@) {
            Some(JsonValue::Str(t)) => Some(t),
            _ => None,
        }
    } else {
        None
    }
}

/// The timestamp of the prompt that a line records, if it records one.
pub open spec fn user_prompt_timestamp(line: Seq<char>) -> Option<String> {
    match json_of(line) {
        Some(v) => prompt_timestamp_of(v),
        None => None,
    }
}

fn has_text_block(a: &Vec<JsonValue>) -> (r: bool)
    ensures
        r == exists|i: int| 0 <= i < a@.len() && is_text_block(#[trigger] a@[i]),
{
    let mut i: usize = 0;
    while i < a.len()
        invariant
            i <= a@.len(),
            forall|k: int| 0 <= k < i ==> !is_text_block(#[trigger] a@[k]),
        decreases a@.len() - i,
    {
        let t = match get_field(&a[i], "type") {
            Some(JsonValue::Str(s)) => crate::text::str_eq(s.as_str(), "text"),
            _ => false,
        };
        if t {
            return true;
        }
        i += 1;
    }
    false
}

/// Classifies a decoded line: the timestamp of a genuine user prompt.
pub fn prompt_timestamp(v: &JsonValue) -> (r: Option<String>)
    ensures
        r == prompt_timestamp_of(*v),
{
    let user = match get_field(v, "type") {
        Some(JsonValue::Str(s)) => crate::text::str_eq(s.as_str(), "user"),
        _ => false,
    };
    if !user {
        return None;
    }
    let content = match get_field(v, "message") {
        Some(m) => get_field(m, "content"),
        None => None,
    };
    let genuine = match content {
        Some(JsonValue::Str(_)) => true,
        Some(JsonValue::Array(a)) => has_text_block(a),
        _ => false,
    };
    if !genuine {
        return None;
    }
    match get_field(v, "timestamp") {
        Some(JsonValue::Str(t)) => Some(t.clone()),
        _ => None,
    }
}

/// The timestamp of a line if it records a genuine user prompt; nothing for
/// any other line, malformed ones included.
pub fn parse_user_prompt_timestamp(line: &str) -> (r: Option<String>)
    ensures
        r == user_prompt_timestamp(line@),
{
    match parse_json(line) {
        Some(v) => prompt_timestamp(&v),
        None => None,
    }
}

} // verus!
