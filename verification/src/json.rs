//! The structured payload of a record: a JSON tree held as plain values,
//! with a mathematical view and exactly specified compact and pretty
//! renderings.

use vstd::prelude::*;
use vstd::string::*;

verus! {

/// A JSON number as ingestion normalized it: its printed text plus the
/// integer readings the logic consumes.
pub struct JsonNum {
    pub text: String,
    pub as_int: Option<i64>,
    pub as_uint: Option<u64>,
}

impl Clone for JsonNum {
    fn clone(&self) -> (res: Self)
        ensures
            res == *self,
    {
        JsonNum { text: self.text.clone(), as_int: self.as_int, as_uint: self.as_uint }
    }
}

/// One node of a payload tree. An object is a key/value list in the order
/// ingestion delivered it; lookups take the first binding of a key.
pub enum JsonValue {
    Null,
    Bool(bool),
    Num(JsonNum),
    Str(String),
    Arr(Vec<JsonValue>),
    Obj(Vec<(String, JsonValue)>),
}

/// The mathematical shape of a payload tree.
#[verifier::ext_equal]
pub enum JsonView {
    Null,
    Bool(bool),
    Num(Seq<char>, Option<int>, Option<int>),
    Str(Seq<char>),
    Arr(Seq<JsonView>),
    Obj(Seq<(Seq<char>, JsonView)>),
}

/// The view of one payload node.
pub open spec fn jv_view(v: JsonValue) -> JsonView
    decreases v,
    via jv_view_decreases
{
    match v {
        JsonValue::Null => JsonView::Null,
        JsonValue::Bool(b) => JsonView::Bool(b),
        JsonValue::Num(n) => JsonView::Num(
            n.text@,
            match n.as_int {
                Some(x) => Some(x as int),
                None => None,
            },
            match n.as_uint {
                Some(x) => Some(x as int),
                None => None,
            },
        ),
        JsonValue::Str(s) => JsonView::Str(s@),
        JsonValue::Arr(items) => JsonView::Arr(jv_views(items@)),
        JsonValue::Obj(pairs) => JsonView::Obj(jv_pair_views(pairs@)),
    }
}

/// The views of a sequence of payload nodes.
pub open spec fn jv_views(items: Seq<JsonValue>) -> Seq<JsonView>
    decreases items,
{
    if items.len() == 0 {
        Seq::empty()
    } else {
        jv_views(items.drop_last()).push(jv_view(items.last()))
    }
}

/// The views of a sequence of object members.
pub open spec fn jv_pair_views(pairs: Seq<(String, JsonValue)>) -> Seq<(Seq<char>, JsonView)>
    decreases pairs,
{
    if pairs.len() == 0 {
        Seq::empty()
    } else {
        jv_pair_views(pairs.drop_last()).push((pairs.last().0@, jv_view(pairs.last().1)))
    }
}

#[via_fn]
proof fn jv_view_decreases(v: JsonValue) {
    match v {
        JsonValue::Arr(items) => {
            assert(decreases_to!(v => v->Arr_0));
            assert(decreases_to!(v->Arr_0 => v->Arr_0@));
        },
        JsonValue::Obj(pairs) => {
            assert(decreases_to!(v => v->Obj_0));
            assert(decreases_to!(v->Obj_0 => v->Obj_0@));
        },
        _ => {},
    }
}

/// The element views line up with the elements.
pub proof fn lemma_jv_views_index(items: Seq<JsonValue>, i: int)
    requires
        0 <= i < items.len(),
    ensures
        jv_views(items).len() == items.len(),
        jv_views(items)[i] == jv_view(items[i]),
    decreases items.len(),
{
    lemma_jv_views_len(items);
    if i < items.len() - 1 {
        lemma_jv_views_index(items.drop_last(), i);
    }
}

/// The views of a node sequence keep its length.
pub proof fn lemma_jv_views_len(items: Seq<JsonValue>)
    ensures
        jv_views(items).len() == items.len(),
    decreases items.len(),
{
    if items.len() > 0 {
        lemma_jv_views_len(items.drop_last());
    }
}

/// The member views line up with the members.
pub proof fn lemma_jv_pair_views_index(pairs: Seq<(String, JsonValue)>, i: int)
    requires
        0 <= i < pairs.len(),
    ensures
        jv_pair_views(pairs).len() == pairs.len(),
        jv_pair_views(pairs)[i] == (pairs[i].0@, jv_view(pairs[i].1)),
    decreases pairs.len(),
{
    lemma_jv_pair_views_len(pairs);
    if i < pairs.len() - 1 {
        lemma_jv_pair_views_index(pairs.drop_last(), i);
    }
}

/// The views of a member sequence keep its length.
pub proof fn lemma_jv_pair_views_len(pairs: Seq<(String, JsonValue)>)
    ensures
        jv_pair_views(pairs).len() == pairs.len(),
    decreases pairs.len(),
{
    if pairs.len() > 0 {
        lemma_jv_pair_views_len(pairs.drop_last());
    }
}

impl View for JsonValue {
    type V = JsonView;

    open spec fn view(&self) -> JsonView {
        jv_view(*self)
    }
}

impl DeepView for JsonValue {
    type V = JsonView;

    open spec fn deep_view(&self) -> JsonView {
        jv_view(*self)
    }
}

/// The compact rendering of a payload tree. String contents and member keys
/// are escaped as JSON strings.
pub open spec fn json_text(v: JsonView) -> Seq<char>
    decreases v,
{
    match v {
        JsonView::Null => seq!['n', 'u', 'l', 'l'],
        JsonView::Bool(b) => if b {
            seq!['t', 'r', 'u', 'e']
        } else {
            seq!['f', 'a', 'l', 's', 'e']
        },
        JsonView::Num(text, _, _) => text,
        JsonView::Str(s) => seq!['"'] + crate::text::esc(s) + seq!['"'],
        JsonView::Arr(items) => seq!['['] + arr_text(items) + seq![']'],
        JsonView::Obj(pairs) => seq!['{'] + obj_text(pairs) + seq!['}'],
    }
}

/// The comma-separated renderings of array elements.
pub open spec fn arr_text(items: Seq<JsonView>) -> Seq<char>
    decreases items,
{
    if items.len() == 0 {
        Seq::empty()
    } else {
        arr_text(items.drop_last()) + (if items.len() > 1 {
            seq![',']
        } else {
            Seq::<char>::empty()
        }) + json_text(items.last())
    }
}

/// The comma-separated renderings of object members.
pub open spec fn obj_text(pairs: Seq<(Seq<char>, JsonView)>) -> Seq<char>
    decreases pairs,
{
    if pairs.len() == 0 {
        Seq::empty()
    } else {
        obj_text(pairs.drop_last()) + (if pairs.len() > 1 {
            seq![',']
        } else {
            Seq::<char>::empty()
        }) + seq!['"'] + crate::text::esc(pairs.last().0) + seq!['"', ':'] + json_text(
            pairs.last().1,
        )
    }
}

/// The indentation of a pretty-printed line: two spaces per level.
pub open spec fn indent_text(depth: int) -> Seq<char>
    decreases depth,
{
    if depth <= 0 {
        Seq::empty()
    } else {
        indent_text(depth - 1) + seq![' ', ' ']
    }
}

/// The pretty rendering of a payload tree at a nesting depth: scalars as in
/// the compact form, every container member on its own indented line.
pub open spec fn json_pretty(v: JsonView, depth: int) -> Seq<char>
    decreases v,
    via json_pretty_decreases
{
    match v {
        JsonView::Arr(items) => if items.len() == 0 {
            seq!['[', ']']
        } else {
            seq!['['] + arr_pretty(items, depth) + seq!['\n'] + indent_text(depth) + seq![']']
        },
        JsonView::Obj(pairs) => if pairs.len() == 0 {
            seq!['{', '}']
        } else {
            seq!['{'] + obj_pretty(pairs, depth) + seq!['\n'] + indent_text(depth) + seq!['}']
        },
        _ => json_text(v),
    }
}

/// The pretty renderings of array elements, one per indented line.
pub open spec fn arr_pretty(items: Seq<JsonView>, depth: int) -> Seq<char>
    decreases items,
{
    if items.len() == 0 {
        Seq::empty()
    } else {
        arr_pretty(items.drop_last(), depth) + (if items.len() > 1 {
            seq![',']
        } else {
            Seq::<char>::empty()
        }) + seq!['\n'] + indent_text(depth + 1) + json_pretty(items.last(), depth + 1)
    }
}

/// The pretty renderings of object members, one per indented line.
pub open spec fn obj_pretty(pairs: Seq<(Seq<char>, JsonView)>, depth: int) -> Seq<char>
    decreases pairs,
{
    if pairs.len() == 0 {
        Seq::empty()
    } else {
        obj_pretty(pairs.drop_last(), depth) + (if pairs.len() > 1 {
            seq![',']
        } else {
            Seq::<char>::empty()
        }) + seq!['\n'] + indent_text(depth + 1) + seq!['"'] + crate::text::esc(pairs.last().0)
            + seq!['"', ':', ' '] + json_pretty(pairs.last().1, depth + 1)
    }
}

#[via_fn]
proof fn json_pretty_decreases(v: JsonView, depth: int) {
    match v {
        JsonView::Arr(items) => {
            assert(decreases_to!(v => v->Arr_0));
        },
        JsonView::Obj(pairs) => {
            assert(decreases_to!(v => v->Obj_0));
        },
        _ => {},
    }
}

/// Looks a key up among object members; the first binding wins.
pub open spec fn obj_get(pairs: Seq<(Seq<char>, JsonView)>, key: Seq<char>) -> Option<JsonView>
    decreases pairs.len(),
{
    if pairs.len() == 0 {
        None
    } else if pairs[0].0 == key {
        Some(pairs[0].1)
    } else {
        obj_get(pairs.drop_first(), key)
    }
}

/// Looks a key up in a payload node; `None` on anything but an object.
pub open spec fn spec_get(v: JsonView, key: Seq<char>) -> Option<JsonView> {
    match v {
        JsonView::Obj(pairs) => obj_get(pairs, key),
        _ => None,
    }
}

pub(crate) proof fn lemma_arr_elem_decreases(v: JsonValue, i: int)
    requires
        v is Arr,
        0 <= i < v->Arr_0@.len(),
    ensures
        decreases_to!(v => v->Arr_0@[i]),
{
    assert(decreases_to!(v => v->Arr_0));
    assert(decreases_to!(v->Arr_0 => v->Arr_0@));
    assert(decreases_to!(v->Arr_0@ => v->Arr_0@[i]));
}

pub(crate) proof fn lemma_obj_elem_decreases(v: JsonValue, i: int)
    requires
        v is Obj,
        0 <= i < v->Obj_0@.len(),
    ensures
        decreases_to!(v => v->Obj_0@[i].1),
{
    assert(decreases_to!(v => v->Obj_0));
    assert(decreases_to!(v->Obj_0 => v->Obj_0@));
    assert(decreases_to!(v->Obj_0@ => v->Obj_0@[i]));
    assert(decreases_to!(v->Obj_0@[i] => v->Obj_0@[i].1));
}

impl Clone for JsonValue {
    fn clone(&self) -> (res: Self)
        ensures
            res@ == self@,
        decreases *self,
    {
        match self {
            JsonValue::Null => JsonValue::Null,
            JsonValue::Bool(b) => JsonValue::Bool(*b),
            JsonValue::Num(n) => JsonValue::Num(n.clone()),
            JsonValue::Str(s) => JsonValue::Str(s.clone()),
            JsonValue::Arr(items) => {
                let mut out: Vec<JsonValue> = Vec::new();
                let mut i: usize = 0;
                while i < items.len()
                    invariant
                        i <= items.len(),
                        out@.len() == i,
                        forall|k: int| 0 <= k < i ==> out@[k]@ == items@[k]@,
                        *self == JsonValue::Arr(*items),
                    decreases items.len() - i,
                {
                    proof {
                        lemma_arr_elem_decreases(*self, i as int);
                    }
                    out.push(items[i].clone());
                    i = i + 1;
                }
                let r = JsonValue::Arr(out);
                proof {
                    assert forall|k: int| 0 <= k < items@.len() implies jv_views(out@)[k]
                        == jv_views(items@)[k] by {
                        lemma_jv_views_index(out@, k);
                        lemma_jv_views_index(items@, k);
                    }
                    lemma_jv_views_len(out@);
                    lemma_jv_views_len(items@);
                    assert(jv_views(out@) =~= jv_views(items@));
                    assert(r@ =~= self@);
                }
                r
            },
            JsonValue::Obj(pairs) => {
                let mut out: Vec<(String, JsonValue)> = Vec::new();
                let mut i: usize = 0;
                while i < pairs.len()
                    invariant
                        i <= pairs.len(),
                        out@.len() == i,
                        forall|k: int| 0 <= k < i ==> out@[k].0@ == pairs@[k].0@ && out@[k].1@
                            == pairs@[k].1@,
                        *self == JsonValue::Obj(*pairs),
                    decreases pairs.len() - i,
                {
                    let pair = &pairs[i];
                    proof {
                        lemma_obj_elem_decreases(*self, i as int);
                    }
                    out.push((pair.0.clone(), pair.1.clone()));
                    i = i + 1;
                }
                let r = JsonValue::Obj(out);
                proof {
                    assert forall|k: int| 0 <= k < pairs@.len() implies jv_pair_views(out@)[k]
                        == jv_pair_views(pairs@)[k] by {
                        lemma_jv_pair_views_index(out@, k);
                        lemma_jv_pair_views_index(pairs@, k);
                    }
                    lemma_jv_pair_views_len(out@);
                    lemma_jv_pair_views_len(pairs@);
                    assert(jv_pair_views(out@) =~= jv_pair_views(pairs@));
                    assert(r@ =~= self@);
                }
                r
            },
        }
    }
}

impl JsonValue {
    /// Renders the tree compactly, exactly as `json_text` describes.
    pub fn to_text(&self) -> (r: String)
        ensures
            r@ == json_text(self@),
        decreases *self,
    {
        proof {
            reveal_strlit("null");
            reveal_strlit("true");
            reveal_strlit("false");
            reveal_strlit("[");
            reveal_strlit("]");
            reveal_strlit("{");
            reveal_strlit("}");
            reveal_strlit("\"");
        }
        match self {
            JsonValue::Null => {
                let r = String::from_str("null");
                proof {
                    assert(r@ =~= json_text(self@));
                }
                r
            },
            JsonValue::Bool(b) => {
                let r = if *b {
                    String::from_str("true")
                } else {
                    String::from_str("false")
                };
                proof {
                    assert(r@ =~= json_text(self@));
                }
                r
            },
            JsonValue::Num(n) => n.text.clone(),
            JsonValue::Str(s) => {
                let mut acc = String::from_str("\"");
                let escaped = crate::text::escape_json(s.as_str());
                acc.append(escaped.as_str());
                acc.append("\"");
                proof {
                    assert(acc@ =~= json_text(self@));
                }
                acc
            },
            JsonValue::Arr(items) => {
                let ghost views = jv_views(items@);
                let mut acc = String::from_str("[");
                let mut i: usize = 0;
                proof {
                    assert forall|k: int| 0 <= k < items@.len() implies views[k]
                        == items@[k]@ by {
                        lemma_jv_views_index(items@, k);
                    }
                    lemma_jv_views_len(items@);
                    assert(views.take(0) =~= Seq::<JsonView>::empty());
                    assert(acc@ =~= seq!['['] + arr_text(views.take(0)));
                }
                while i < items.len()
                    invariant
                        i <= items.len(),
                        views.len() == items@.len(),
                        forall|k: int| 0 <= k < items@.len() ==> views[k] == items@[k]@,
                        acc@ == seq!['['] + arr_text(views.take(i as int)),
                        *self == JsonValue::Arr(*items),
                        views == jv_views(items@),
                    decreases items.len() - i,
                {
                    proof {
                        reveal_strlit(",");
                        lemma_arr_elem_decreases(*self, i as int);
                    }
                    if i > 0 {
                        acc.append(",");
                    }
                    let sub = items[i].to_text();
                    acc.append(sub.as_str());
                    proof {
                        let upto = views.take(i + 1 as int);
                        assert(upto.drop_last() =~= views.take(i as int));
                        assert(upto.last() == views[i as int]);
                        assert(acc@ =~= seq!['['] + arr_text(upto));
                    }
                    i = i + 1;
                }
                acc.append("]");
                proof {
                    assert(views.take(views.len() as int) =~= views);
                    assert(acc@ =~= json_text(self@));
                }
                acc
            },
            JsonValue::Obj(pairs) => {
                let ghost views = jv_pair_views(pairs@);
                let mut acc = String::from_str("{");
                let mut i: usize = 0;
                proof {
                    assert forall|k: int| 0 <= k < pairs@.len() implies views[k] == (
                        pairs@[k].0@,
                        pairs@[k].1@,
                    ) by {
                        lemma_jv_pair_views_index(pairs@, k);
                    }
                    lemma_jv_pair_views_len(pairs@);
                    assert(views.take(0) =~= Seq::<(Seq<char>, JsonView)>::empty());
                    assert(acc@ =~= seq!['{'] + obj_text(views.take(0)));
                }
                while i < pairs.len()
                    invariant
                        i <= pairs.len(),
                        views.len() == pairs@.len(),
                        forall|k: int| 0 <= k < pairs@.len() ==> views[k] == (
                            pairs@[k].0@,
                            pairs@[k].1@,
                        ),
                        acc@ == seq!['{'] + obj_text(views.take(i as int)),
                        *self == JsonValue::Obj(*pairs),
                        views == jv_pair_views(pairs@),
                    decreases pairs.len() - i,
                {
                    proof {
                        reveal_strlit(",");
                        reveal_strlit("\"");
                        reveal_strlit("\":");
                        lemma_obj_elem_decreases(*self, i as int);
                    }
                    if i > 0 {
                        acc.append(",");
                    }
                    let pair = &pairs[i];
                    acc.append("\"");
                    let escaped = crate::text::escape_json(pair.0.as_str());
                    acc.append(escaped.as_str());
                    acc.append("\":");
                    let sub = pair.1.to_text();
                    acc.append(sub.as_str());
                    proof {
                        let upto = views.take(i + 1 as int);
                        assert(upto.drop_last() =~= views.take(i as int));
                        assert(upto.last() == views[i as int]);
                        assert(acc@ =~= seq!['{'] + obj_text(upto));
                    }
                    i = i + 1;
                }
                acc.append("}");
                proof {
                    assert(views.take(views.len() as int) =~= views);
                    assert(acc@ =~= json_text(self@));
                }
                acc
            },
        }
    }

    /// Renders the tree pretty-printed at a nesting depth, exactly as
    /// `json_pretty` describes; `indent` must be that depth's indentation.
    fn pretty_text(&self, indent: &str, Ghost(depth): Ghost<int>) -> (r: String)
        requires
            depth >= 0,
            indent@ == indent_text(depth),
        ensures
            r@ == json_pretty(self@, depth),
        decreases *self,
    {
        proof {
            reveal_strlit("[]");
            reveal_strlit("{}");
            reveal_strlit("[");
            reveal_strlit("]");
            reveal_strlit("{");
            reveal_strlit("}");
            reveal_strlit("  ");
        }
        match self {
            JsonValue::Arr(items) => {
                if items.len() == 0 {
                    let r = String::from_str("[]");
                    proof {
                        assert(r@ =~= json_pretty(self@, depth));
                    }
                    return r;
                }
                let mut child_indent = indent.to_owned();
                child_indent.append("  ");
                proof {
                    assert(child_indent@ =~= indent_text(depth + 1));
                }
                let ghost views = jv_views(items@);
                let mut acc = String::from_str("[");
                let mut i: usize = 0;
                proof {
                    assert forall|k: int| 0 <= k < items@.len() implies views[k]
                        == items@[k]@ by {
                        lemma_jv_views_index(items@, k);
                    }
                    lemma_jv_views_len(items@);
                    assert(views.take(0) =~= Seq::<JsonView>::empty());
                    assert(acc@ =~= seq!['['] + arr_pretty(views.take(0), depth));
                }
                while i < items.len()
                    invariant
                        i <= items.len(),
                        depth >= 0,
                        views.len() == items@.len(),
                        forall|k: int| 0 <= k < items@.len() ==> views[k] == items@[k]@,
                        acc@ == seq!['['] + arr_pretty(views.take(i as int), depth),
                        child_indent@ == indent_text(depth + 1),
                        *self == JsonValue::Arr(*items),
                        views == jv_views(items@),
                    decreases items.len() - i,
                {
                    proof {
                        reveal_strlit(",");
                        reveal_strlit("\n");
                        lemma_arr_elem_decreases(*self, i as int);
                    }
                    if i > 0 {
                        acc.append(",");
                    }
                    acc.append("\n");
                    acc.append(child_indent.as_str());
                    let sub = items[i].pretty_text(child_indent.as_str(), Ghost(depth + 1));
                    acc.append(sub.as_str());
                    proof {
                        let upto = views.take(i + 1 as int);
                        assert(upto.drop_last() =~= views.take(i as int));
                        assert(upto.last() == views[i as int]);
                        assert(acc@ =~= seq!['['] + arr_pretty(upto, depth));
                    }
                    i = i + 1;
                }
                acc.append("\n");
                acc.append(indent);
                acc.append("]");
                proof {
                    reveal_strlit("\n");
                    assert(views.take(views.len() as int) =~= views);
                    assert(acc@ =~= json_pretty(self@, depth));
                }
                acc
            },
            JsonValue::Obj(pairs) => {
                if pairs.len() == 0 {
                    let r = String::from_str("{}");
                    proof {
                        assert(r@ =~= json_pretty(self@, depth));
                    }
                    return r;
                }
                let mut child_indent = indent.to_owned();
                child_indent.append("  ");
                proof {
                    assert(child_indent@ =~= indent_text(depth + 1));
                }
                let ghost views = jv_pair_views(pairs@);
                let mut acc = String::from_str("{");
                let mut i: usize = 0;
                proof {
                    assert forall|k: int| 0 <= k < pairs@.len() implies views[k] == (
                        pairs@[k].0@,
                        pairs@[k].1@,
                    ) by {
                        lemma_jv_pair_views_index(pairs@, k);
                    }
                    lemma_jv_pair_views_len(pairs@);
                    assert(views.take(0) =~= Seq::<(Seq<char>, JsonView)>::empty());
                    assert(acc@ =~= seq!['{'] + obj_pretty(views.take(0), depth));
                }
                while i < pairs.len()
                    invariant
                        i <= pairs.len(),
                        depth >= 0,
                        views.len() == pairs@.len(),
                        forall|k: int| 0 <= k < pairs@.len() ==> views[k] == (
                            pairs@[k].0@,
                            pairs@[k].1@,
                        ),
                        acc@ == seq!['{'] + obj_pretty(views.take(i as int), depth),
                        child_indent@ == indent_text(depth + 1),
                        *self == JsonValue::Obj(*pairs),
                        views == jv_pair_views(pairs@),
                    decreases pairs.len() - i,
                {
                    proof {
                        reveal_strlit(",");
                        reveal_strlit("\n");
                        reveal_strlit("\"");
                        reveal_strlit("\": ");
                        lemma_obj_elem_decreases(*self, i as int);
                    }
                    if i > 0 {
                        acc.append(",");
                    }
                    acc.append("\n");
                    acc.append(child_indent.as_str());
                    let pair = &pairs[i];
                    acc.append("\"");
                    let escaped = crate::text::escape_json(pair.0.as_str());
                    acc.append(escaped.as_str());
                    acc.append("\": ");
                    let sub = pair.1.pretty_text(child_indent.as_str(), Ghost(depth + 1));
                    acc.append(sub.as_str());
                    proof {
                        let upto = views.take(i + 1 as int);
                        assert(upto.drop_last() =~= views.take(i as int));
                        assert(upto.last() == views[i as int]);
                        assert(acc@ =~= seq!['{'] + obj_pretty(upto, depth));
                    }
                    i = i + 1;
                }
                acc.append("\n");
                acc.append(indent);
                acc.append("}");
                proof {
                    reveal_strlit("\n");
                    assert(views.take(views.len() as int) =~= views);
                    assert(acc@ =~= json_pretty(self@, depth));
                }
                acc
            },
            _ => {
                let r = self.to_text();
                proof {
                    assert(json_pretty(self@, depth) == json_text(self@));
                }
                r
            },
        }
    }

    /// Renders the tree pretty-printed from the top level, exactly as
    /// `json_pretty` describes.
    pub fn to_pretty(&self) -> (r: String)
        ensures
            r@ == json_pretty(self@, 0),
    {
        proof {
            reveal_strlit("");
            assert(""@ =~= indent_text(0));
        }
        self.pretty_text("", Ghost(0))
    }

    /// The member list, when the node is an object.
    pub fn as_object(&self) -> (r: Option<&Vec<(String, JsonValue)>>)
        ensures
            r is Some <==> self@ is Obj,
            r matches Some(p) ==> *self == JsonValue::Obj(*p) && self@ == JsonView::Obj(
                jv_pair_views(p@),
            ),
    {
        match self {
            JsonValue::Obj(pairs) => Some(pairs),
            _ => None,
        }
    }

    /// The string content, when the node is a string.
    pub fn as_str_value(&self) -> (r: Option<&String>)
        ensures
            r is Some <==> self@ is Str,
            r matches Some(s) ==> self@ == JsonView::Str(s@),
    {
        match self {
            JsonValue::Str(s) => Some(s),
            _ => None,
        }
    }

    /// The signed integer reading, when the node is a number carrying one.
    pub fn as_i64(&self) -> (r: Option<i64>)
        ensures
            (match self@ {
                JsonView::Num(_, i, _) => (match r {
                    Some(x) => i == Some(x as int),
                    None => i is None,
                }),
                _ => r is None,
            }),
    {
        match self {
            JsonValue::Num(n) => n.as_int,
            _ => None,
        }
    }

    /// The unsigned integer reading, when the node is a number carrying one.
    pub fn as_u64(&self) -> (r: Option<u64>)
        ensures
            (match self@ {
                JsonView::Num(_, _, u) => (match r {
                    Some(x) => u == Some(x as int),
                    None => u is None,
                }),
                _ => r is None,
            }),
    {
        match self {
            JsonValue::Num(n) => n.as_uint,
            _ => None,
        }
    }

    /// Looks a key up in an object node; the first binding wins.
    pub fn get<'a>(&'a self, key: &str) -> (r: Option<&'a JsonValue>)
        ensures
            r is Some <==> spec_get(self@, key@) is Some,
            r matches Some(x) ==> spec_get(self@, key@) == Some(x@),
    {
        let pairs = match self {
            JsonValue::Obj(pairs) => pairs,
            _ => {
                return None;
            },
        };
        let ghost views = jv_pair_views(pairs@);
        let mut i: usize = 0;
        proof {
            assert forall|k: int| 0 <= k < pairs@.len() implies views[k] == (
                pairs@[k].0@,
                pairs@[k].1@,
            ) by {
                lemma_jv_pair_views_index(pairs@, k);
            }
            lemma_jv_pair_views_len(pairs@);
            assert(views.skip(0) =~= views);
        }
        while i < pairs.len()
            invariant
                i <= pairs.len(),
                views.len() == pairs@.len(),
                forall|k: int| 0 <= k < pairs@.len() ==> views[k] == (pairs@[k].0@, pairs@[k].1@),
                obj_get(views, key@) == obj_get(views.skip(i as int), key@),
                *self == JsonValue::Obj(*pairs),
                views == jv_pair_views(pairs@),
            decreases pairs.len() - i,
        {
            if crate::text::str_eq(pairs[i].0.as_str(), key) {
                proof {
                    let s = views.skip(i as int);
                    assert(s[0] == views[i as int]);
                    assert(s[0].0 == key@);
                    assert(s.len() > 0);
                    assert(obj_get(s, key@) == Some(s[0].1));
                    assert(spec_get(self@, key@) == Some(pairs@[i as int].1@));
                }
                return Some(&pairs[i].1);
            }
            proof {
                assert(views.skip(i as int).drop_first() =~= views.skip(i + 1 as int));
                assert(views.skip(i as int)[0] == views[i as int]);
            }
            i = i + 1;
        }
        proof {
            assert(views.skip(views.len() as int) =~= Seq::<(Seq<char>, JsonView)>::empty());
        }
        None
    }
}

} // verus!
