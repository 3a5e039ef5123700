//! Resolving a column path against a record: the three reserved one-segment
//! paths read the record's own fields, every other path walks the payload
//! (or `payload.data.*`), and the value found is shown as its literal text.

use vstd::prelude::*;
use vstd::string::*;

use crate::field_view::spec_field_value;
use crate::json::{spec_get, JsonValue, JsonView};
use crate::model::{dash, key_level, key_message, key_timestamp, level_text, LogEntry};
use crate::text::str_eq;

verus! {

/// Follows the path's segments from `i` on through nested objects.
pub open spec fn walk_path(v: JsonView, path: Seq<Seq<char>>, i: int) -> Option<JsonView>
    decreases path.len() - i,
{
    if i < 0 || i >= path.len() {
        Some(v)
    } else {
        match spec_get(v, path[i]) {
            Some(x) => walk_path(x, path, i + 1),
            None => None,
        }
    }
}

/// The text a path yields from a payload. A plain-string payload answers the
/// three reserved one-segment paths itself (a synthetic record's raw line);
/// otherwise the path is walked and the node found is shown as its literal
/// text.
pub open spec fn spec_extract_field(v: JsonView, path: Seq<Seq<char>>) -> Option<Seq<char>> {
    if v is Str && path.len() == 1 && path[0] == key_timestamp() {
        Some(dash())
    } else if v is Str && path.len() == 1 && path[0] == key_level() {
        Some(level_text())
    } else if v is Str && path.len() == 1 && path[0] == key_message() {
        Some(v->Str_0)
    } else {
        match walk_path(v, path, 0) {
            Some(x) => Some(spec_field_value(x)),
            None => None,
        }
    }
}

/// The text a path yields from a record: the reserved one-segment paths read
/// the record's fields, everything else its payload.
pub open spec fn spec_entry_field(e: LogEntry, path: Seq<Seq<char>>) -> Option<Seq<char>> {
    if path.len() == 1 && path[0] == key_timestamp() {
        Some(e.timestamp@)
    } else if path.len() == 1 && path[0] == key_level() {
        Some(e.level@)
    } else if path.len() == 1 && path[0] == key_message() {
        Some(e.message@)
    } else {
        spec_extract_field(e.raw@, path)
    }
}

/// Resolves a path against a payload, as `spec_extract_field` says.
pub fn extract_field_string(value: &JsonValue, path: &Vec<String>) -> (r: Option<String>)
    ensures
        r is Some <==> spec_extract_field(value@, path.deep_view()) is Some,
        r matches Some(s) ==> spec_extract_field(value@, path.deep_view()) == Some(s@),
{
    proof {
        reveal_strlit("timestamp");
        reveal_strlit("level");
        reveal_strlit("message");
        reveal_strlit("-");
        reveal_strlit("TEXT");
        assert("timestamp"@ =~= key_timestamp());
        assert("level"@ =~= key_level());
        assert("message"@ =~= key_message());
        assert("-"@ =~= dash());
        assert("TEXT"@ =~= level_text());
    }
    let ghost pv = path.deep_view();
    proof {
        assert(forall|k: int| 0 <= k < path@.len() ==> pv[k] == path@[k]@);
    }
    if let Some(s) = value.as_str_value() {
        if path.len() == 1 {
            if str_eq(path[0].as_str(), "timestamp") {
                return Some(String::from_str("-"));
            }
            if str_eq(path[0].as_str(), "level") {
                return Some(String::from_str("TEXT"));
            }
            if str_eq(path[0].as_str(), "message") {
                return Some(s.clone());
            }
        }
    }
    let mut current: &JsonValue = value;
    let mut i: usize = 0;
    while i < path.len()
        invariant
            i <= path@.len(),
            pv.len() == path@.len(),
            pv == path.deep_view(),
            forall|k: int| 0 <= k < path@.len() ==> pv[k] == path@[k]@,
            walk_path(value@, pv, 0) == walk_path(current@, pv, i as int),
            !(value@ is Str && pv.len() == 1 && (pv[0] == key_timestamp() || pv[0] == key_level()
                || pv[0] == key_message())),
        decreases path@.len() - i,
    {
        match current.get(path[i].as_str()) {
            Some(next) => {
                current = next;
            },
            None => {
                return None;
            },
        }
        i = i + 1;
    }
    Some(crate::field_view::value_literal_text(current))
}

/// Resolves a path against a record, as `spec_entry_field` says.
pub fn entry_field_or_raw(entry: &LogEntry, path: &Vec<String>) -> (r: Option<String>)
    ensures
        r is Some <==> spec_entry_field(*entry, path.deep_view()) is Some,
        r matches Some(s) ==> spec_entry_field(*entry, path.deep_view()) == Some(s@),
{
    proof {
        reveal_strlit("timestamp");
        reveal_strlit("level");
        reveal_strlit("message");
        assert("timestamp"@ =~= key_timestamp());
        assert("level"@ =~= key_level());
        assert("message"@ =~= key_message());
        assert(forall|k: int| 0 <= k < path@.len() ==> path.deep_view()[k] == path@[k]@);
    }
    if path.len() == 1 {
        if str_eq(path[0].as_str(), "timestamp") {
            return Some(entry.timestamp.clone());
        }
        if str_eq(path[0].as_str(), "level") {
            return Some(entry.level.clone());
        }
        if str_eq(path[0].as_str(), "message") {
            return Some(entry.message.clone());
        }
    }
    extract_field_string(&entry.raw, path)
}

} // verus!
