//! The record model: one normalized log line, its filter haystack, and the
//! normalization of a parsed payload into a record.

use vstd::prelude::*;
use vstd::string::*;

use crate::json::{spec_get, JsonValue, JsonView};
use crate::pattern::regex_matches;
use crate::text::str_eq;

verus! {

/// One normalized log line.
pub struct LogEntry {
    pub timestamp: String,
    pub level: String,
    pub message: String,
    pub raw: JsonValue,
}

impl Clone for LogEntry {
    fn clone(&self) -> (res: Self)
        ensures
            res.timestamp == self.timestamp,
            res.level == self.level,
            res.message == self.message,
            res.raw@ == self.raw@,
    {
        LogEntry {
            timestamp: self.timestamp.clone(),
            level: self.level.clone(),
            message: self.message.clone(),
            raw: self.raw.clone(),
        }
    }
}

/// The text a filter pattern is tested against: the record's fields and its
/// rendered payload, separated by single spaces.
pub open spec fn haystack(e: LogEntry) -> Seq<char> {
    e.timestamp@ + seq![' '] + e.level@ + seq![' '] + e.message@ + seq![' ']
        + crate::json::json_text(e.raw@)
}

/// Whether a record passes the active pattern; no pattern passes everything.
pub open spec fn entry_matches(pat: Option<Seq<char>>, e: LogEntry) -> bool {
    match pat {
        None => true,
        Some(p) => regex_matches(p, haystack(e)),
    }
}

/// Builds the filter haystack of a record.
pub fn build_haystack(e: &LogEntry) -> (r: String)
    ensures
        r@ == haystack(*e),
{
    proof {
        reveal_strlit(" ");
    }
    let mut acc = e.timestamp.clone();
    acc.append(" ");
    acc.append(e.level.as_str());
    acc.append(" ");
    acc.append(e.message.as_str());
    acc.append(" ");
    let raw = e.raw.to_text();
    acc.append(raw.as_str());
    proof {
        assert(acc@ =~= haystack(*e));
    }
    acc
}

/// The reserved key naming a record's timestamp.
pub open spec fn key_timestamp() -> Seq<char> {
    seq!['t', 'i', 'm', 'e', 's', 't', 'a', 'm', 'p']
}

/// The reserved key naming a record's level.
pub open spec fn key_level() -> Seq<char> {
    seq!['l', 'e', 'v', 'e', 'l']
}

/// The reserved key naming a record's message.
pub open spec fn key_message() -> Seq<char> {
    seq!['m', 'e', 's', 's', 'a', 'g', 'e']
}

/// The reserved key naming a structured timestamp.
pub open spec fn key_instant() -> Seq<char> {
    seq!['i', 'n', 's', 't', 'a', 'n', 't']
}

/// The reserved key naming a nested data object.
pub open spec fn key_data() -> Seq<char> {
    seq!['d', 'a', 't', 'a']
}

/// The member of a structured timestamp holding its epoch seconds.
pub open spec fn key_epoch_second() -> Seq<char> {
    seq!['e', 'p', 'o', 'c', 'h', 'S', 'e', 'c', 'o', 'n', 'd']
}

/// The member of a structured timestamp holding its nanosecond part.
pub open spec fn key_nano_of_second() -> Seq<char> {
    seq!['n', 'a', 'n', 'o', 'O', 'f', 'S', 'e', 'c', 'o', 'n', 'd']
}

/// The placeholder shown when no timestamp can be derived.
pub open spec fn dash() -> Seq<char> {
    seq!['-']
}

/// The level of a record whose payload names none.
pub open spec fn level_unknown() -> Seq<char> {
    seq!['U', 'N', 'K', 'N', 'O', 'W', 'N']
}

/// The level of a synthetic record for a line that is not JSON.
pub open spec fn level_text() -> Seq<char> {
    seq!['T', 'E', 'X', 'T']
}

/// The string content of a key's binding, when it is bound to a string.
pub open spec fn spec_find_str(v: JsonView, key: Seq<char>) -> Option<Seq<char>> {
    match spec_get(v, key) {
        Some(JsonView::Str(s)) => Some(s),
        _ => None,
    }
}

/// The structured timestamp of a payload: epoch seconds and a nanosecond
/// part, when both are present as numbers under `instant`.
pub open spec fn spec_instant(v: JsonView) -> Option<(int, int)> {
    match spec_get(v, key_instant()) {
        Some(inst) => match (spec_get(inst, key_epoch_second()), spec_get(
            inst,
            key_nano_of_second(),
        )) {
            (Some(JsonView::Num(_, Some(s), _)), Some(JsonView::Num(_, _, Some(n)))) => Some(
                (s, n),
            ),
            _ => None,
        },
        None => None,
    }
}

/// The RFC 3339 rendering (millisecond precision, Zulu) of an epoch instant,
/// as the date library renders it: a function of the two integers alone.
pub uninterp spec fn rfc3339_millis(secs: int, nanos: int) -> Option<Seq<char>>;

/// Relies on `chrono::DateTime::from_timestamp` and `to_rfc3339_opts`: from
/// epoch seconds and a nanosecond part (truncated to 32 bits) either the
/// RFC 3339 rendering or nothing, depending on the two integers alone.
#[verifier::external_body]
pub(crate) fn format_epoch_millis(secs: i64, nanos: u64) -> (r: Option<String>)
    ensures
        (r is Some) == (rfc3339_millis(secs as int, nanos as int) is Some),
        r matches Some(t) ==> rfc3339_millis(secs as int, nanos as int) == Some(t@),
{
    match chrono::DateTime::from_timestamp(secs, nanos as u32) {
        Some(dt) => Some(dt.to_rfc3339_opts(chrono::SecondsFormat::Millis, true)),
        None => None,
    }
}

/// The timestamp derived from one payload node: a `timestamp` string if
/// bound, else a rendered `instant`, else the placeholder.
pub open spec fn spec_timestamp_of(v: JsonView) -> Seq<char> {
    match spec_find_str(v, key_timestamp()) {
        Some(ts) => ts,
        None => match spec_instant(v) {
            Some((s, n)) => match rfc3339_millis(s, n) {
                Some(t) => t,
                None => dash(),
            },
            None => dash(),
        },
    }
}

/// The timestamp of a record: derived from the payload, falling back to the
/// payload's `data` object when the payload itself yields the placeholder.
pub open spec fn spec_entry_timestamp(v: JsonView) -> Seq<char> {
    let ts = spec_timestamp_of(v);
    if ts == dash() {
        match spec_get(v, key_data()) {
            Some(d) => spec_timestamp_of(d),
            None => ts,
        }
    } else {
        ts
    }
}

/// The level of a record: the payload's, else its `data` object's, else the
/// unknown placeholder.
pub open spec fn spec_entry_level(v: JsonView) -> Seq<char> {
    match spec_find_str(v, key_level()) {
        Some(l) => l,
        None => match spec_get(v, key_data()) {
            Some(d) => match spec_find_str(d, key_level()) {
                Some(l) => l,
                None => level_unknown(),
            },
            None => level_unknown(),
        },
    }
}

/// The message of a record: the payload's, else its `data` object's, else
/// empty.
pub open spec fn spec_entry_message(v: JsonView) -> Seq<char> {
    match spec_find_str(v, key_message()) {
        Some(m) => m,
        None => match spec_get(v, key_data()) {
            Some(d) => match spec_find_str(d, key_message()) {
                Some(m) => m,
                None => Seq::empty(),
            },
            None => Seq::empty(),
        },
    }
}

/// The string bound to a key, when the node is an object binding the key to
/// a string.
pub fn find_str<'a>(v: &'a JsonValue, key: &str) -> (r: Option<&'a String>)
    ensures
        r is Some <==> spec_find_str(v@, key@) is Some,
        r matches Some(s) ==> spec_find_str(v@, key@) == Some(s@),
{
    match v.get(key) {
        Some(x) => x.as_str_value(),
        None => None,
    }
}

/// Derives the timestamp of one payload node, as `spec_timestamp_of` says.
pub fn extract_timestamp(v: &JsonValue) -> (r: String)
    ensures
        r@ == spec_timestamp_of(v@),
{
    proof {
        reveal_strlit("timestamp");
        reveal_strlit("instant");
        reveal_strlit("epochSecond");
        reveal_strlit("nanoOfSecond");
        reveal_strlit("-");
        assert("timestamp"@ =~= key_timestamp());
        assert("instant"@ =~= key_instant());
        assert("epochSecond"@ =~= key_epoch_second());
        assert("nanoOfSecond"@ =~= key_nano_of_second());
        assert("-"@ =~= dash());
    }
    if let Some(ts) = find_str(v, "timestamp") {
        return ts.clone();
    }
    if let Some(instant) = v.get("instant") {
        let sec = match instant.get("epochSecond") {
            Some(x) => x.as_i64(),
            None => None,
        };
        let nano = match instant.get("nanoOfSecond") {
            Some(x) => x.as_u64(),
            None => None,
        };
        if let Some(s) = sec {
            if let Some(n) = nano {
                if let Some(t) = format_epoch_millis(s, n) {
                    return t;
                }
            }
        }
    }
    String::from_str("-")
}

/// Normalizes a parsed payload into a record, deriving its timestamp, level
/// and message and keeping the payload itself.
pub fn entry_from_json(raw: JsonValue) -> (e: LogEntry)
    ensures
        e.raw == raw,
        e.timestamp@ == spec_entry_timestamp(raw@),
        e.level@ == spec_entry_level(raw@),
        e.message@ == spec_entry_message(raw@),
{
    proof {
        reveal_strlit("data");
        reveal_strlit("level");
        reveal_strlit("message");
        reveal_strlit("-");
        reveal_strlit("UNKNOWN");
        reveal_strlit("");
        assert("data"@ =~= key_data());
        assert("level"@ =~= key_level());
        assert("message"@ =~= key_message());
        assert("-"@ =~= dash());
        assert("UNKNOWN"@ =~= level_unknown());
        assert(""@ =~= Seq::<char>::empty());
    }
    let ts0 = extract_timestamp(&raw);
    let timestamp = if str_eq(ts0.as_str(), "-") {
        match raw.get("data") {
            Some(d) => extract_timestamp(d),
            None => ts0,
        }
    } else {
        ts0
    };
    let level = match find_str(&raw, "level") {
        Some(l) => l.clone(),
        None => {
            let from_data = match raw.get("data") {
                Some(d) => match find_str(d, "level") {
                    Some(l) => Some(l.clone()),
                    None => None,
                },
                None => None,
            };
            match from_data {
                Some(l) => l,
                None => String::from_str("UNKNOWN"),
            }
        },
    };
    let message = match find_str(&raw, "message") {
        Some(m) => m.clone(),
        None => {
            let from_data = match raw.get("data") {
                Some(d) => match find_str(d, "message") {
                    Some(m) => Some(m.clone()),
                    None => None,
                },
                None => None,
            };
            match from_data {
                Some(m) => m,
                None => String::from_str(""),
            }
        },
    };
    LogEntry { timestamp, level, message, raw }
}

/// The synthetic record for a line that did not parse as JSON: the line is
/// kept as the message and as a plain string payload.
pub fn text_entry(line: String) -> (e: LogEntry)
    ensures
        e.timestamp@ == dash(),
        e.level@ == level_text(),
        e.message@ == line@,
        e.raw@ == JsonView::Str(line@),
{
    proof {
        reveal_strlit("-");
        reveal_strlit("TEXT");
        assert("-"@ =~= dash());
        assert("TEXT"@ =~= level_text());
    }
    let message = line.clone();
    LogEntry {
        timestamp: String::from_str("-"),
        level: String::from_str("TEXT"),
        message,
        raw: JsonValue::Str(line),
    }
}

} // verus!
