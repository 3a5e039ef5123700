//! The field explorer: one record's payload flattened, in pre-order, into a
//! navigable list of labelled nodes, with its own substring filter and
//! selection.

use vstd::prelude::*;
use vstd::string::*;

use crate::cursor::ListCursor;
use crate::json::{
    json_text, jv_pair_views, lemma_arr_elem_decreases, lemma_jv_pair_views_index,
    lemma_jv_pair_views_len, lemma_jv_views_index, lemma_jv_views_len, lemma_obj_elem_decreases,
    jv_views, JsonValue, JsonView,
};
use crate::text::{contains_sub, dec_text, lower_of, spec_contains, to_lower, u64_to_string};

verus! {

/// One flattened node: its path label and its own subtree.
pub struct FieldEntry {
    pub path: String,
    pub value: JsonValue,
}

impl Clone for FieldEntry {
    fn clone(&self) -> (res: Self)
        ensures
            res.path == self.path,
            res.value@ == self.value@,
    {
        FieldEntry { path: self.path.clone(), value: self.value.clone() }
    }
}

/// The labels and subtree views of a node list.
pub open spec fn fv_views(s: Seq<FieldEntry>) -> Seq<(Seq<char>, JsonView)> {
    s.map_values(|f: FieldEntry| (f.path@, f.value@))
}

/// The label of the payload root.
pub open spec fn root_label() -> Seq<char> {
    seq!['(', 'r', 'o', 'o', 't', ')']
}

/// The label a node is shown under: its path, or the root label at the root.
pub open spec fn display_label(path: Seq<char>) -> Seq<char> {
    if path.len() == 0 {
        root_label()
    } else {
        path
    }
}

/// The path of an object member: `parent.key`, or `key` at the root.
pub open spec fn child_label(path: Seq<char>, key: Seq<char>) -> Seq<char> {
    if path.len() == 0 {
        key
    } else {
        path + seq!['.'] + key
    }
}

/// The path of an array element: `parent[index]`.
pub open spec fn index_label(path: Seq<char>, idx: int) -> Seq<char> {
    path + seq!['['] + dec_text(idx) + seq![']']
}

/// The pre-order flattening of a payload subtree at a path: the node itself,
/// then every descendant under its extended label.
pub open spec fn flatten(v: JsonView, path: Seq<char>) -> Seq<(Seq<char>, JsonView)>
    decreases v,
    via flatten_decreases
{
    seq![(display_label(path), v)] + (match v {
        JsonView::Obj(pairs) => flatten_members(pairs, path),
        JsonView::Arr(items) => flatten_elems(items, path, 0),
        _ => Seq::empty(),
    })
}

/// The flattenings of an object's members, in order.
pub open spec fn flatten_members(pairs: Seq<(Seq<char>, JsonView)>, path: Seq<char>) -> Seq<
    (Seq<char>, JsonView),
>
    decreases pairs,
{
    if pairs.len() == 0 {
        Seq::empty()
    } else {
        flatten(pairs[0].1, child_label(path, pairs[0].0)) + flatten_members(
            pairs.drop_first(),
            path,
        )
    }
}

/// The flattenings of an array's elements, labelled from `idx` on.
pub open spec fn flatten_elems(items: Seq<JsonView>, path: Seq<char>, idx: int) -> Seq<
    (Seq<char>, JsonView),
>
    decreases items,
{
    if items.len() == 0 {
        Seq::empty()
    } else {
        flatten(items[0], index_label(path, idx)) + flatten_elems(items.drop_first(), path, idx + 1)
    }
}

#[via_fn]
proof fn flatten_decreases(v: JsonView, path: Seq<char>) {
    match v {
        JsonView::Obj(pairs) => {
            assert(decreases_to!(v => v->Obj_0));
        },
        JsonView::Arr(items) => {
            assert(decreases_to!(v => v->Arr_0));
        },
        _ => {},
    }
}

fn walk(value: &JsonValue, path: &str, out: &mut Vec<FieldEntry>)
    ensures
        fv_views(final(out)@) == fv_views(old(out)@) + flatten(value@, path@),
    decreases *value,
{
    proof {
        reveal_strlit("(root)");
        assert("(root)"@ =~= root_label());
    }
    let display = if path.unicode_len() == 0 {
        String::from_str("(root)")
    } else {
        path.to_owned()
    };
    let ghost before = out@;
    out.push(FieldEntry { path: display, value: value.clone() });
    proof {
        assert(fv_views(out@) =~= fv_views(before).push((display_label(path@), value@)));
    }
    match value {
        JsonValue::Obj(pairs) => {
            let ghost mviews = jv_pair_views(pairs@);
            proof {
                lemma_jv_pair_views_len(pairs@);
                assert forall|k: int| 0 <= k < pairs@.len() implies mviews[k] == (
                    pairs@[k].0@,
                    pairs@[k].1@,
                ) by {
                    lemma_jv_pair_views_index(pairs@, k);
                }
                assert(mviews.skip(0) =~= mviews);
                assert(fv_views(out@) + flatten_members(mviews.skip(0), path@) =~= fv_views(
                    before,
                ) + flatten(value@, path@));
            }
            let mut i: usize = 0;
            while i < pairs.len()
                invariant
                    i <= pairs.len(),
                    mviews.len() == pairs@.len(),
                    forall|k: int| 0 <= k < pairs@.len() ==> mviews[k] == (
                        pairs@[k].0@,
                        pairs@[k].1@,
                    ),
                    fv_views(out@) + flatten_members(mviews.skip(i as int), path@) == fv_views(
                        before,
                    ) + flatten(value@, path@),
                    *value == JsonValue::Obj(*pairs),
                decreases pairs.len() - i,
            {
                proof {
                    reveal_strlit(".");
                    lemma_obj_elem_decreases(*value, i as int);
                }
                let pair = &pairs[i];
                let mut child = String::new();
                if path.unicode_len() > 0 {
                    child.append(path);
                    child.append(".");
                }
                child.append(pair.0.as_str());
                proof {
                    assert(child@ =~= child_label(path@, mviews[i as int].0));
                }
                walk(&pair.1, child.as_str(), out);
                proof {
                    let rest = mviews.skip(i as int);
                    assert(rest[0] == mviews[i as int]);
                    assert(rest.drop_first() =~= mviews.skip(i + 1 as int));
                    assert(fv_views(out@) + flatten_members(mviews.skip(i + 1 as int), path@)
                        =~= fv_views(before) + flatten(value@, path@));
                }
                i = i + 1;
            }
            proof {
                assert(mviews.skip(mviews.len() as int) =~= Seq::<(Seq<char>, JsonView)>::empty());
                assert(fv_views(out@) =~= fv_views(before) + flatten(value@, path@));
            }
        },
        JsonValue::Arr(items) => {
            let ghost eviews = jv_views(items@);
            proof {
                lemma_jv_views_len(items@);
                assert forall|k: int| 0 <= k < items@.len() implies eviews[k] == items@[k]@ by {
                    lemma_jv_views_index(items@, k);
                }
                assert(eviews.skip(0) =~= eviews);
                assert(fv_views(out@) + flatten_elems(eviews.skip(0), path@, 0) =~= fv_views(
                    before,
                ) + flatten(value@, path@));
            }
            let mut i: usize = 0;
            while i < items.len()
                invariant
                    i <= items.len(),
                    eviews.len() == items@.len(),
                    forall|k: int| 0 <= k < items@.len() ==> eviews[k] == items@[k]@,
                    fv_views(out@) + flatten_elems(eviews.skip(i as int), path@, i as int)
                        == fv_views(before) + flatten(value@, path@),
                    *value == JsonValue::Arr(*items),
                decreases items.len() - i,
            {
                proof {
                    reveal_strlit("[");
                    reveal_strlit("]");
                    lemma_arr_elem_decreases(*value, i as int);
                }
                let mut child = path.to_owned();
                child.append("[");
                let num = u64_to_string(i as u64);
                child.append(num.as_str());
                child.append("]");
                proof {
                    assert(child@ =~= index_label(path@, i as int));
                }
                walk(&items[i], child.as_str(), out);
                proof {
                    let rest = eviews.skip(i as int);
                    assert(rest[0] == eviews[i as int]);
                    assert(rest.drop_first() =~= eviews.skip(i + 1 as int));
                    assert(fv_views(out@) + flatten_elems(eviews.skip(i + 1 as int), path@, i + 1
                        as int) =~= fv_views(before) + flatten(value@, path@));
                }
                i = i + 1;
            }
            proof {
                assert(eviews.skip(eviews.len() as int) =~= Seq::<JsonView>::empty());
                assert(fv_views(out@) =~= fv_views(before) + flatten(value@, path@));
            }
        },
        _ => {
            proof {
                assert(fv_views(out@) =~= fv_views(before) + flatten(value@, path@));
            }
        },
    }
}

/// Flattens a payload in pre-order: the root under `(root)`, every object
/// member under `parent.key`, every array element under `parent[index]`.
pub fn collect_fields(value: &JsonValue) -> (out: Vec<FieldEntry>)
    ensures
        fv_views(out@) == flatten(value@, Seq::empty()),
        out@.len() >= 1,
{
    proof {
        reveal_strlit("");
        assert(""@ =~= Seq::<char>::empty());
    }
    let mut out: Vec<FieldEntry> = Vec::new();
    proof {
        assert(fv_views(out@) =~= Seq::<(Seq<char>, JsonView)>::empty());
    }
    walk(value, "", &mut out);
    proof {
        assert(fv_views(out@) =~= flatten(value@, Seq::empty()));
        assert(fv_views(out@).len() == out@.len());
        assert(flatten(value@, Seq::empty()).len() >= 1);
    }
    out
}

/// Whether a node label passes the explorer's filter: an empty filter passes
/// everything, otherwise case-insensitive substring containment.
pub open spec fn label_matches(filter: Seq<char>, label: Seq<char>) -> bool {
    filter.len() == 0 || spec_contains(lower_of(label), lower_of(filter))
}

/// When the explorer is zoomed, its detail pane fills the screen.
#[derive(Clone, Copy, Debug, PartialEq, Eq)]
pub enum FieldZoom {
    Detail,
}

/// The field explorer's state: the flattened nodes, the subsequence passing
/// its filter, its cursor, and the filter text.
pub struct FieldViewState {
    pub fields: Vec<FieldEntry>,
    pub filtered_indices: Vec<usize>,
    pub list_state: ListCursor,
    pub filter: String,
}

impl FieldViewState {
    /// The filtered index list names exactly the nodes whose labels pass the
    /// filter, in order.
    pub open spec fn filtered_wf(self) -> bool {
        &&& crate::strictly_increasing(self.filtered_indices@)
        &&& forall|k: int| 0 <= k < self.filtered_indices@.len()
            ==> self.filtered_indices@[k] < self.fields@.len() && label_matches(
            self.filter@,
            self.fields@[self.filtered_indices@[k] as int].path@,
        )
        &&& forall|j: int| 0 <= j < self.fields@.len() && label_matches(
            self.filter@,
            self.fields@[j].path@,
        ) ==> exists|k: int| 0 <= k < self.filtered_indices@.len()
            && self.filtered_indices@[k] == j
    }

    /// The node the cursor points at, if the cursor names a live filtered row.
    pub fn selected_field(&self) -> (r: Option<&FieldEntry>)
        ensures
            (match self.list_state.selected {
                Some(sel) => if sel < self.filtered_indices@.len()
                    && self.filtered_indices@[sel as int] < self.fields@.len() {
                    r matches Some(f) && *f == self.fields@[self.filtered_indices@[
                        sel as int] as int]
                } else {
                    r is None
                },
                None => r is None,
            }),
    {
        let sel = match self.list_state.selected() {
            Some(s) => s,
            None => {
                return None;
            },
        };
        if sel >= self.filtered_indices.len() {
            return None;
        }
        let idx = self.filtered_indices[sel];
        if idx >= self.fields.len() {
            return None;
        }
        Some(&self.fields[idx])
    }

    /// The node the cursor points at, as an index into the node list.
    pub open spec fn spec_selected_node(self) -> Option<usize> {
        match self.list_state.selected {
            Some(s) => if s < self.filtered_indices@.len() {
                Some(self.filtered_indices@[s as int])
            } else {
                None
            },
            None => None,
        }
    }

    /// Whether the node selected before a refiltering is present in the
    /// refiltered rows.
    pub open spec fn node_found(pre: FieldViewState, post: FieldViewState) -> bool {
        match pre.spec_selected_node() {
            Some(j) => exists|k: int|
                0 <= k < post.filtered_indices@.len() && post.filtered_indices@[k] == j,
            None => false,
        }
    }

    /// What refiltering the explorer does: the nodes and the filter stay,
    /// the rows become exactly the matching nodes, and when the previously
    /// selected node's label still passes, the cursor points at that same
    /// node's new row; otherwise it falls to the first row, or to nothing
    /// when no label passes.
    pub open spec fn rebuild_post(pre: FieldViewState, post: FieldViewState) -> bool {
        &&& post.fields == pre.fields
        &&& post.filter == pre.filter
        &&& post.filtered_wf()
        &&& post.list_state.offset == pre.list_state.offset
        &&& (post.filtered_indices@.len() == 0 ==> post.list_state.selected is None)
        &&& ((post.filtered_indices@.len() > 0 && Self::node_found(pre, post)) ==> (match
            post.list_state.selected {
            Some(s) => s < post.filtered_indices@.len() && Some(post.filtered_indices@[s as int])
                == pre.spec_selected_node(),
            None => false,
        }))
        &&& ((post.filtered_indices@.len() > 0 && !Self::node_found(pre, post))
            ==> post.list_state.selected == Some(0usize))
    }

    /// Recomputes the filtered list from the filter text, as `rebuild_post`
    /// says. Returns whether the cursor moved.
    pub fn rebuild_filter(&mut self) -> (changed: bool)
        ensures
            Self::rebuild_post(*old(self), *final(self)),
            changed == (old(self).list_state.selected != final(self).list_state.selected),
    {
        let old_selection = self.list_state.selected();
        let prev_node: Option<usize> = match old_selection {
            Some(s) => if s < self.filtered_indices.len() {
                Some(self.filtered_indices[s])
            } else {
                None
            },
            None => None,
        };
        let lowered = to_lower(self.filter.as_str());
        let empty_filter = self.filter.as_str().unicode_len() == 0;
        let mut filtered: Vec<usize> = Vec::new();
        let mut i: usize = 0;
        while i < self.fields.len()
            invariant
                i <= self.fields@.len(),
                lowered@ == lower_of(self.filter@),
                empty_filter == (self.filter@.len() == 0),
                crate::strictly_increasing(filtered@),
                forall|k: int| 0 <= k < filtered@.len() ==> filtered@[k] < i && label_matches(
                    self.filter@,
                    self.fields@[filtered@[k] as int].path@,
                ),
                forall|j: int| 0 <= j < i && label_matches(self.filter@, self.fields@[j].path@)
                    ==> exists|k: int| 0 <= k < filtered@.len() && filtered@[k] == j,
            decreases self.fields@.len() - i,
        {
            let keep = if empty_filter {
                true
            } else {
                let lowered_path = to_lower(self.fields[i].path.as_str());
                contains_sub(lowered_path.as_str(), lowered.as_str())
            };
            if keep {
                let ghost fbefore = filtered@;
                filtered.push(i);
                proof {
                    assert forall|j: int|
                        0 <= j < i + 1 && label_matches(self.filter@, self.fields@[j].path@)
                        implies exists|k: int| 0 <= k < filtered@.len() && filtered@[k] == j by {
                        if j < i {
                            let k = choose|k: int| 0 <= k < fbefore.len() && fbefore[k] == j;
                            assert(filtered@[k] == j);
                        } else {
                            assert(filtered@[filtered@.len() - 1] == j);
                        }
                    }
                }
            }
            i = i + 1;
        }
        self.filtered_indices = filtered;
        if self.filtered_indices.len() == 0 {
            self.list_state.select(None);
        } else {
            let mut repointed = false;
            if let Some(j) = prev_node {
                let mut k: usize = 0;
                let mut found: Option<usize> = None;
                while k < self.filtered_indices.len() && found.is_none()
                    invariant
                        k <= self.filtered_indices@.len(),
                        (match found {
                            Some(pos) => pos < self.filtered_indices@.len()
                                && self.filtered_indices@[pos as int] == j,
                            None => forall|m: int| 0 <= m < k ==> self.filtered_indices@[m] != j,
                        }),
                    decreases self.filtered_indices@.len() - k, (if found is None {
                        1int
                    } else {
                        0int
                    }),
                {
                    if self.filtered_indices[k] == j {
                        found = Some(k);
                    } else {
                        k = k + 1;
                    }
                }
                if let Some(pos) = found {
                    self.list_state.select(Some(pos));
                    repointed = true;
                }
            }
            if !repointed {
                self.list_state.select(Some(0));
            }
        }
        let new_selection = self.list_state.selected();
        crate::cursor::opt_usize_neq(old_selection, new_selection)
    }
}

/// The literal text of a node handed to the main filter: a string's content
/// verbatim, anything else its compact rendering.
pub open spec fn spec_field_value(v: JsonView) -> Seq<char> {
    match v {
        JsonView::Str(s) => s,
        _ => json_text(v),
    }
}

/// The literal text of a payload node, as `spec_field_value` says.
pub fn value_literal_text(v: &JsonValue) -> (r: String)
    ensures
        r@ == spec_field_value(v@),
{
    match v {
        JsonValue::Str(s) => s.clone(),
        other => other.to_text(),
    }
}

/// The literal text of a node, as `spec_field_value` says.
pub fn field_value_for_filter(entry: &FieldEntry) -> (r: String)
    ensures
        r@ == spec_field_value(entry.value@),
{
    value_literal_text(&entry.value)
}

} // verus!
