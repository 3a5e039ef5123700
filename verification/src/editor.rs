//! What the core hands to the editor collaborator: a suggested file name and
//! the serialized text of a record or of one explored field.

use vstd::prelude::*;
use vstd::string::*;

use crate::field_view::FieldEntry;
use crate::json::{json_pretty, json_text, JsonValue, JsonView};
use crate::model::LogEntry;

verus! {

/// A suggested file name and the text to write to it.
pub struct EditorRequest {
    pub filename: String,
    pub content: String,
}

/// Whether a character may stand in a suggested file name.
pub open spec fn spec_is_alnum(c: char) -> bool {
    ||| 'a' <= c && c <= 'z'
    ||| 'A' <= c && c <= 'Z'
    ||| '0' <= c && c <= '9'
}

/// A text with every character outside the file-name alphabet replaced by an
/// underscore.
pub open spec fn sanitized(s: Seq<char>) -> Seq<char> {
    s.map_values(
        |c: char|
            if spec_is_alnum(c) {
                c
            } else {
                '_'
            },
    )
}

/// Replaces every character outside the file-name alphabet by an underscore.
fn sanitize(s: &str) -> (r: String)
    ensures
        r@ == sanitized(s@),
{
    let len = s.unicode_len();
    let mut out = String::new();
    let mut i: usize = 0;
    while i < len
        invariant
            i <= len,
            len == s@.len(),
            out@ =~= sanitized(s@).take(i as int),
        decreases len - i,
    {
        proof {
            reveal_strlit("_");
        }
        let c = s.get_char(i);
        let u = c as u32;
        let keep = (u >= 'a' as u32 && u <= 'z' as u32) || (u >= 'A' as u32 && u <= 'Z' as u32)
            || (u >= '0' as u32 && u <= '9' as u32);
        if keep {
            let piece = s.substring_char(i, i + 1);
            out.append(piece);
        } else {
            out.append("_");
        }
        proof {
            assert(keep == spec_is_alnum(s@[i as int]));
            assert(out@ =~= sanitized(s@).take(i + 1 as int));
        }
        i = i + 1;
    }
    proof {
        assert(sanitized(s@).take(len as int) =~= sanitized(s@));
    }
    out
}

/// The file-name stem of an exported record.
pub open spec fn entry_stem() -> Seq<char> {
    seq!['l', 'o', 'g', 't', 'u', 'i', '-']
}

/// What the core hands to the editor for a whole record: a file named after
/// the sanitized timestamp, holding the pretty-printed payload.
pub fn entry_editor_payload(entry: &LogEntry) -> (r: EditorRequest)
    ensures
        r.filename@ == entry_stem() + sanitized(entry.timestamp@) + seq!['.', 'j', 's', 'o', 'n'],
        r.content@ == json_pretty(entry.raw@, 0),
{
    proof {
        reveal_strlit("logtui-");
        reveal_strlit(".json");
    }
    let mut filename = String::from_str("logtui-");
    let ts = sanitize(entry.timestamp.as_str());
    filename.append(ts.as_str());
    filename.append(".json");
    let content = entry.raw.to_pretty();
    proof {
        assert(filename@ =~= entry_stem() + sanitized(entry.timestamp@) + seq![
            '.',
            'j',
            's',
            'o',
            'n',
        ]);
    }
    EditorRequest { filename, content }
}

/// The file-name stem of an exported field.
pub open spec fn field_stem() -> Seq<char> {
    seq!['l', 'o', 'g', 't', 'u', 'i', '-', 'f', 'i', 'e', 'l', 'd']
}

/// The text of one explored field as handed to the editor: a string's
/// content verbatim, a container pretty-printed, any other scalar its
/// compact text.
pub open spec fn spec_field_export(v: JsonView) -> Seq<char> {
    match v {
        JsonView::Str(s) => s,
        JsonView::Arr(_) => json_pretty(v, 0),
        JsonView::Obj(_) => json_pretty(v, 0),
        _ => json_text(v),
    }
}

/// What the core hands to the editor for one explored field: a file named
/// after the sanitized path label (or a bare stem for an empty label),
/// holding the node's export text.
pub fn value_editor_payload(field: &FieldEntry) -> (r: EditorRequest)
    ensures
        sanitized(field.path@).len() == 0 ==> r.filename@ == field_stem() + seq![
            '.',
            't',
            'x',
            't',
        ],
        sanitized(field.path@).len() > 0 ==> r.filename@ == field_stem() + seq!['-'] + sanitized(
            field.path@,
        ) + seq!['.', 't', 'x', 't'],
        r.content@ == spec_field_export(field.value@),
{
    proof {
        reveal_strlit("logtui-field");
        reveal_strlit("-");
        reveal_strlit(".txt");
    }
    let san = sanitize(field.path.as_str());
    let mut filename = String::from_str("logtui-field");
    if san.as_str().unicode_len() > 0 {
        filename.append("-");
        filename.append(san.as_str());
    }
    filename.append(".txt");
    let content = match &field.value {
        JsonValue::Str(s) => s.clone(),
        JsonValue::Arr(_) => field.value.to_pretty(),
        JsonValue::Obj(_) => field.value.to_pretty(),
        other => other.to_text(),
    };
    proof {
        if sanitized(field.path@).len() == 0 {
            assert(filename@ =~= field_stem() + seq!['.', 't', 'x', 't']);
        } else {
            assert(filename@ =~= field_stem() + seq!['-'] + sanitized(field.path@) + seq![
                '.',
                't',
                'x',
                't',
            ]);
        }
    }
    EditorRequest { filename, content }
}

} // verus!
