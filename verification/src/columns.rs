//! The column registry: reserved default columns, and discovery of new
//! scalar paths from incoming payloads.

use vstd::prelude::*;
use vstd::string::*;

use crate::json::{spec_get, JsonValue, JsonView};
use crate::model::{key_data, key_instant, key_level, key_message, key_timestamp};
use crate::text::str_eq;

verus! {

/// One displayable column: a name, the path it reads, and whether it is
/// currently shown.
pub struct ColumnDef {
    pub name: String,
    pub path: Vec<String>,
    pub enabled: bool,
}

/// The mathematical content of a column definition.
pub type ColView = (Seq<char>, Seq<Seq<char>>, bool);

/// The view of one column definition.
pub open spec fn col_view(c: ColumnDef) -> ColView {
    (c.name@, c.path.deep_view(), c.enabled)
}

/// The views of a column registry.
pub open spec fn cols_view(cols: Seq<ColumnDef>) -> Seq<ColView> {
    cols.map_values(|c: ColumnDef| col_view(c))
}

/// No two columns read the same path.
pub open spec fn paths_distinct(cv: Seq<ColView>) -> bool {
    forall|i: int, j: int| 0 <= i < j < cv.len() ==> cv[i].1 != cv[j].1
}

/// Some column reads this path.
pub open spec fn path_present(cv: Seq<ColView>, p: Seq<Seq<char>>) -> bool {
    exists|i: int| 0 <= i < cv.len() && cv[i].1 == p
}

impl Clone for ColumnDef {
    fn clone(&self) -> (res: Self)
        ensures
            res.name == self.name,
            res.path@ == self.path@,
            res.enabled == self.enabled,
    {
        let path = self.path.clone();
        proof {
            assert(path@ =~= self.path@);
        }
        ColumnDef { name: self.name.clone(), path, enabled: self.enabled }
    }
}

impl ColumnDef {
    /// A freshly discovered column: named, addressed, and not yet shown.
    pub fn new(name: String, path: Vec<String>) -> (c: Self)
        ensures
            col_view(c) == (name@, path.deep_view(), false),
    {
        Self { name, path, enabled: false }
    }
}

/// A key reserved for the record's own fields and the structured timestamp:
/// discovery never adds a column for it.
pub open spec fn spec_is_reserved(k: Seq<char>) -> bool {
    ||| k == key_timestamp()
    ||| k == key_level()
    ||| k == key_message()
    ||| k == key_instant()
    ||| k == key_data()
}

/// Whether a key is reserved, as `spec_is_reserved` says.
pub fn is_reserved_column(key: &str) -> (r: bool)
    ensures
        r == spec_is_reserved(key@),
{
    proof {
        reveal_strlit("timestamp");
        reveal_strlit("level");
        reveal_strlit("message");
        reveal_strlit("instant");
        reveal_strlit("data");
        assert("timestamp"@ =~= key_timestamp());
        assert("level"@ =~= key_level());
        assert("message"@ =~= key_message());
        assert("instant"@ =~= key_instant());
        assert("data"@ =~= key_data());
    }
    str_eq(key, "timestamp") || str_eq(key, "level") || str_eq(key, "message") || str_eq(
        key,
        "instant",
    ) || str_eq(key, "data")
}

/// The views of the three columns present at startup, all enabled.
pub open spec fn default_cols_view() -> Seq<ColView> {
    seq![
        (key_timestamp(), seq![key_timestamp()], true),
        (key_level(), seq![key_level()], true),
        (key_message(), seq![key_message()], true),
    ]
}

/// The default column paths are unique.
pub proof fn lemma_default_cols_distinct()
    ensures
        paths_distinct(default_cols_view()),
{
    assert(key_timestamp().len() != key_level().len());
    assert(key_timestamp().len() != key_message().len());
    assert(key_level().len() != key_message().len());
    assert forall|i: int, j: int|
        0 <= i < j < default_cols_view().len() implies default_cols_view()[i].1
        != default_cols_view()[j].1 by {
        assert(default_cols_view()[i].1[0].len() != default_cols_view()[j].1[0].len());
    }
}

/// The three columns present at startup, all enabled.
pub fn default_columns() -> (r: Vec<ColumnDef>)
    ensures
        cols_view(r@) =~= default_cols_view(),
        r@.len() == 3,
{
    proof {
        reveal_strlit("timestamp");
        reveal_strlit("level");
        reveal_strlit("message");
        assert("timestamp"@ =~= key_timestamp());
        assert("level"@ =~= key_level());
        assert("message"@ =~= key_message());
    }
    let mut out: Vec<ColumnDef> = Vec::new();
    let mut p1: Vec<String> = Vec::new();
    p1.push(String::from_str("timestamp"));
    out.push(ColumnDef { name: String::from_str("timestamp"), path: p1, enabled: true });
    let mut p2: Vec<String> = Vec::new();
    p2.push(String::from_str("level"));
    out.push(ColumnDef { name: String::from_str("level"), path: p2, enabled: true });
    let mut p3: Vec<String> = Vec::new();
    p3.push(String::from_str("message"));
    out.push(ColumnDef { name: String::from_str("message"), path: p3, enabled: true });
    proof {
        assert(out@[0].path.deep_view() =~= seq![key_timestamp()]);
        assert(out@[1].path.deep_view() =~= seq![key_level()]);
        assert(out@[2].path.deep_view() =~= seq![key_message()]);
    }
    out
}

/// The display name of a column discovered under `data`.
pub open spec fn data_dot(k: Seq<char>) -> Seq<char> {
    seq!['d', 'a', 't', 'a', '.'] + k
}

/// One discovery step for a top-level key: appends a disabled column reading
/// `[k]`, unless the key is reserved or the path is already read.
pub open spec fn step_top(cv: Seq<ColView>, k: Seq<char>) -> Seq<ColView> {
    if spec_is_reserved(k) || path_present(cv, seq![k]) {
        cv
    } else {
        cv.push((k, seq![k], false))
    }
}

/// Discovery steps for the top-level keys, in order.
pub open spec fn add_top_keys(cv: Seq<ColView>, keys: Seq<Seq<char>>) -> Seq<ColView>
    decreases keys.len(),
{
    if keys.len() == 0 {
        cv
    } else {
        add_top_keys(step_top(cv, keys[0]), keys.drop_first())
    }
}

/// One discovery step for a key of the `data` object: appends a disabled
/// column reading `[data, k]`, unless the key is reserved or the path is
/// already read.
pub open spec fn step_data(cv: Seq<ColView>, k: Seq<char>) -> Seq<ColView> {
    if spec_is_reserved(k) || path_present(cv, seq![key_data(), k]) {
        cv
    } else {
        cv.push((data_dot(k), seq![key_data(), k], false))
    }
}

/// Discovery steps for the keys of the `data` object, in order.
pub open spec fn add_data_keys(cv: Seq<ColView>, keys: Seq<Seq<char>>) -> Seq<ColView>
    decreases keys.len(),
{
    if keys.len() == 0 {
        cv
    } else {
        add_data_keys(step_data(cv, keys[0]), keys.drop_first())
    }
}

/// The top-level keys of a payload, in order; none on a non-object.
pub open spec fn top_keys(v: JsonView) -> Seq<Seq<char>> {
    match v {
        JsonView::Obj(pairs) => pairs.map_values(|p: (Seq<char>, JsonView)| p.0),
        _ => Seq::empty(),
    }
}

/// The keys of a payload's `data` object, in order; none when `data` is
/// absent or not an object.
pub open spec fn data_keys(v: JsonView) -> Seq<Seq<char>> {
    match spec_get(v, key_data()) {
        Some(JsonView::Obj(pairs)) => pairs.map_values(|p: (Seq<char>, JsonView)| p.0),
        _ => Seq::empty(),
    }
}

/// What one payload's discovery does to a registry: its top-level keys are
/// tried first, then the keys of its `data` object.
pub open spec fn discover_spec(cv: Seq<ColView>, v: JsonView) -> Seq<ColView> {
    add_data_keys(add_top_keys(cv, top_keys(v)), data_keys(v))
}

proof fn lemma_add_top_snoc(cv: Seq<ColView>, keys: Seq<Seq<char>>, k: Seq<char>)
    ensures
        add_top_keys(cv, keys.push(k)) == step_top(add_top_keys(cv, keys), k),
    decreases keys.len(),
{
    if keys.len() == 0 {
        assert(keys.push(k)[0] == k);
        assert(keys.push(k).drop_first() =~= keys);
        assert(add_top_keys(cv, keys.push(k)) == add_top_keys(step_top(cv, k), keys));
        assert(add_top_keys(step_top(cv, k), keys) == step_top(cv, k));
    } else {
        assert(keys.push(k)[0] == keys[0]);
        assert(keys.push(k).drop_first() =~= keys.drop_first().push(k));
        assert(add_top_keys(cv, keys.push(k)) == add_top_keys(
            step_top(cv, keys[0]),
            keys.drop_first().push(k),
        ));
        lemma_add_top_snoc(step_top(cv, keys[0]), keys.drop_first(), k);
        assert(add_top_keys(cv, keys) == add_top_keys(step_top(cv, keys[0]), keys.drop_first()));
    }
}

proof fn lemma_add_data_snoc(cv: Seq<ColView>, keys: Seq<Seq<char>>, k: Seq<char>)
    ensures
        add_data_keys(cv, keys.push(k)) == step_data(add_data_keys(cv, keys), k),
    decreases keys.len(),
{
    if keys.len() == 0 {
        assert(keys.push(k)[0] == k);
        assert(keys.push(k).drop_first() =~= keys);
        assert(add_data_keys(cv, keys.push(k)) == add_data_keys(step_data(cv, k), keys));
        assert(add_data_keys(step_data(cv, k), keys) == step_data(cv, k));
    } else {
        assert(keys.push(k)[0] == keys[0]);
        assert(keys.push(k).drop_first() =~= keys.drop_first().push(k));
        assert(add_data_keys(cv, keys.push(k)) == add_data_keys(
            step_data(cv, keys[0]),
            keys.drop_first().push(k),
        ));
        lemma_add_data_snoc(step_data(cv, keys[0]), keys.drop_first(), k);
        assert(add_data_keys(cv, keys) == add_data_keys(
            step_data(cv, keys[0]),
            keys.drop_first(),
        ));
    }
}

proof fn lemma_add_top_mono(cv: Seq<ColView>, keys: Seq<Seq<char>>, p: Seq<Seq<char>>)
    requires
        path_present(cv, p),
    ensures
        path_present(add_top_keys(cv, keys), p),
    decreases keys.len(),
{
    if keys.len() > 0 {
        let i = choose|i: int| 0 <= i < cv.len() && cv[i].1 == p;
        assert(step_top(cv, keys[0])[i].1 == p);
        lemma_add_top_mono(step_top(cv, keys[0]), keys.drop_first(), p);
    }
}

proof fn lemma_add_data_mono(cv: Seq<ColView>, keys: Seq<Seq<char>>, p: Seq<Seq<char>>)
    requires
        path_present(cv, p),
    ensures
        path_present(add_data_keys(cv, keys), p),
    decreases keys.len(),
{
    if keys.len() > 0 {
        let i = choose|i: int| 0 <= i < cv.len() && cv[i].1 == p;
        assert(step_data(cv, keys[0])[i].1 == p);
        lemma_add_data_mono(step_data(cv, keys[0]), keys.drop_first(), p);
    }
}

proof fn lemma_add_top_covers(cv: Seq<ColView>, keys: Seq<Seq<char>>, j: int)
    requires
        0 <= j < keys.len(),
        !spec_is_reserved(keys[j]),
    ensures
        path_present(add_top_keys(cv, keys), seq![keys[j]]),
    decreases keys.len(),
{
    let stepped = step_top(cv, keys[0]);
    if j == 0 {
        assert(path_present(stepped, seq![keys[0]])) by {
            if !path_present(cv, seq![keys[0]]) {
                assert(stepped[cv.len() as int].1 == seq![keys[0]]);
            } else {
                let i = choose|i: int| 0 <= i < cv.len() && cv[i].1 == seq![keys[0]];
                assert(stepped[i].1 == seq![keys[0]]);
            }
        }
        lemma_add_top_mono(stepped, keys.drop_first(), seq![keys[0]]);
    } else {
        lemma_add_top_covers(stepped, keys.drop_first(), j - 1);
        assert(keys.drop_first()[j - 1] == keys[j]);
    }
}

proof fn lemma_add_data_covers(cv: Seq<ColView>, keys: Seq<Seq<char>>, j: int)
    requires
        0 <= j < keys.len(),
        !spec_is_reserved(keys[j]),
    ensures
        path_present(add_data_keys(cv, keys), seq![key_data(), keys[j]]),
    decreases keys.len(),
{
    let stepped = step_data(cv, keys[0]);
    if j == 0 {
        assert(path_present(stepped, seq![key_data(), keys[0]])) by {
            if !path_present(cv, seq![key_data(), keys[0]]) {
                assert(stepped[cv.len() as int].1 == seq![key_data(), keys[0]]);
            } else {
                let i = choose|i: int|
                    0 <= i < cv.len() && cv[i].1 == seq![key_data(), keys[0]];
                assert(stepped[i].1 == seq![key_data(), keys[0]]);
            }
        }
        lemma_add_data_mono(stepped, keys.drop_first(), seq![key_data(), keys[0]]);
    } else {
        lemma_add_data_covers(stepped, keys.drop_first(), j - 1);
        assert(keys.drop_first()[j - 1] == keys[j]);
    }
}

proof fn lemma_add_top_noop(cv: Seq<ColView>, keys: Seq<Seq<char>>)
    requires
        forall|j: int| 0 <= j < keys.len() ==> spec_is_reserved(keys[j]) || path_present(
            cv,
            seq![keys[j]],
        ),
    ensures
        add_top_keys(cv, keys) == cv,
    decreases keys.len(),
{
    if keys.len() > 0 {
        assert(spec_is_reserved(keys[0]) || path_present(cv, seq![keys[0]]));
        assert(step_top(cv, keys[0]) == cv);
        assert(forall|j: int| 0 <= j < keys.drop_first().len() ==> keys.drop_first()[j] == keys[j
            + 1]);
        lemma_add_top_noop(cv, keys.drop_first());
    }
}

proof fn lemma_add_data_noop(cv: Seq<ColView>, keys: Seq<Seq<char>>)
    requires
        forall|j: int| 0 <= j < keys.len() ==> spec_is_reserved(keys[j]) || path_present(
            cv,
            seq![key_data(), keys[j]],
        ),
    ensures
        add_data_keys(cv, keys) == cv,
    decreases keys.len(),
{
    if keys.len() > 0 {
        assert(spec_is_reserved(keys[0]) || path_present(cv, seq![key_data(), keys[0]]));
        assert(step_data(cv, keys[0]) == cv);
        assert(forall|j: int| 0 <= j < keys.drop_first().len() ==> keys.drop_first()[j] == keys[j
            + 1]);
        lemma_add_data_noop(cv, keys.drop_first());
    }
}

/// Law: column discovery is idempotent. Discovering the same payload twice
/// leaves exactly the registry that one discovery produces; in particular a
/// key seen twice yields one column definition.
pub proof fn lemma_discover_idempotent(cv: Seq<ColView>, v: JsonView)
    ensures
        discover_spec(discover_spec(cv, v), v) == discover_spec(cv, v),
{
    let tkeys = top_keys(v);
    let dkeys = data_keys(v);
    let b1 = add_top_keys(cv, tkeys);
    let b = add_data_keys(b1, dkeys);
    assert forall|j: int|
        0 <= j < tkeys.len() implies spec_is_reserved(tkeys[j]) || path_present(
        b,
        seq![tkeys[j]],
    ) by {
        if !spec_is_reserved(tkeys[j]) {
            lemma_add_top_covers(cv, tkeys, j);
            lemma_add_data_mono(b1, dkeys, seq![tkeys[j]]);
        }
    }
    lemma_add_top_noop(b, tkeys);
    assert forall|j: int|
        0 <= j < dkeys.len() implies spec_is_reserved(dkeys[j]) || path_present(
        b,
        seq![key_data(), dkeys[j]],
    ) by {
        if !spec_is_reserved(dkeys[j]) {
            lemma_add_data_covers(b1, dkeys, j);
        }
    }
    lemma_add_data_noop(b, dkeys);
}

/// Discovery preserves the uniqueness of column paths.
pub proof fn lemma_discover_distinct(cv: Seq<ColView>, v: JsonView)
    requires
        paths_distinct(cv),
    ensures
        paths_distinct(discover_spec(cv, v)),
{
    lemma_add_top_distinct(cv, top_keys(v));
    lemma_add_data_distinct(add_top_keys(cv, top_keys(v)), data_keys(v));
}

proof fn lemma_add_top_distinct(cv: Seq<ColView>, keys: Seq<Seq<char>>)
    requires
        paths_distinct(cv),
    ensures
        paths_distinct(add_top_keys(cv, keys)),
    decreases keys.len(),
{
    if keys.len() > 0 {
        assert(paths_distinct(step_top(cv, keys[0])));
        lemma_add_top_distinct(step_top(cv, keys[0]), keys.drop_first());
    }
}

proof fn lemma_add_data_distinct(cv: Seq<ColView>, keys: Seq<Seq<char>>)
    requires
        paths_distinct(cv),
    ensures
        paths_distinct(add_data_keys(cv, keys)),
    decreases keys.len(),
{
    if keys.len() > 0 {
        assert(paths_distinct(step_data(cv, keys[0])));
        lemma_add_data_distinct(step_data(cv, keys[0]), keys.drop_first());
    }
}

/// Whether some column already reads the one-segment path `[key]`.
fn has_top_path(columns: &Vec<ColumnDef>, key: &str) -> (r: bool)
    ensures
        r == path_present(cols_view(columns@), seq![key@]),
{
    let ghost cv = cols_view(columns@);
    let mut i: usize = 0;
    while i < columns.len()
        invariant
            i <= columns.len(),
            cv == cols_view(columns@),
            cv.len() == columns@.len(),
            forall|k: int| 0 <= k < i ==> cv[k].1 != seq![key@],
        decreases columns.len() - i,
    {
        let c = &columns[i];
        if c.path.len() == 1 && str_eq(c.path[0].as_str(), key) {
            proof {
                assert(cv[i as int].1 =~= seq![key@]);
            }
            return true;
        }
        proof {
            assert(cv[i as int].1 == columns@[i as int].path.deep_view());
            if columns@[i as int].path@.len() == 1 {
                assert(cv[i as int].1[0] == columns@[i as int].path@[0]@);
            }
            assert(cv[i as int].1 != seq![key@]);
        }
        i = i + 1;
    }
    false
}

/// Whether some column already reads the two-segment path `[data, key]`.
fn has_data_path(columns: &Vec<ColumnDef>, key: &str) -> (r: bool)
    ensures
        r == path_present(cols_view(columns@), seq![key_data(), key@]),
{
    proof {
        reveal_strlit("data");
        assert("data"@ =~= key_data());
    }
    let ghost cv = cols_view(columns@);
    let mut i: usize = 0;
    while i < columns.len()
        invariant
            i <= columns.len(),
            cv == cols_view(columns@),
            cv.len() == columns@.len(),
            forall|k: int| 0 <= k < i ==> cv[k].1 != seq![key_data(), key@],
        decreases columns.len() - i,
    {
        proof {
            reveal_strlit("data");
            assert("data"@ =~= key_data());
        }
        let c = &columns[i];
        if c.path.len() == 2 && str_eq(c.path[0].as_str(), "data") && str_eq(
            c.path[1].as_str(),
            key,
        ) {
            proof {
                assert(cv[i as int].1 =~= seq![key_data(), key@]);
            }
            return true;
        }
        proof {
            assert(cv[i as int].1 == columns@[i as int].path.deep_view());
            if columns@[i as int].path@.len() == 2 {
                assert(cv[i as int].1[0] == columns@[i as int].path@[0]@);
                assert(cv[i as int].1[1] == columns@[i as int].path@[1]@);
            }
            assert(cv[i as int].1 != seq![key_data(), key@]);
        }
        i = i + 1;
    }
    false
}

/// Scans a payload and appends a disabled column for every previously unseen
/// top-level or `data` key that is not reserved, as `discover_spec` says;
/// existing columns stay as they are. Returns whether anything was added.
pub fn discover_into(columns: &mut Vec<ColumnDef>, payload: &JsonValue) -> (added: bool)
    ensures
        cols_view(final(columns)@) == discover_spec(cols_view(old(columns)@), payload@),
        final(columns)@.len() >= old(columns)@.len(),
        final(columns)@.take(old(columns)@.len() as int) == old(columns)@,
        added == (final(columns)@.len() > old(columns)@.len()),
{
    let ghost cv0 = cols_view(old(columns)@);
    let ghost tkeys = top_keys(payload@);
    let ghost dkeys = data_keys(payload@);
    let len0 = columns.len();
    if let Some(pairs) = payload.as_object() {
        proof {
            crate::json::lemma_jv_pair_views_len(pairs@);
            assert forall|k: int| 0 <= k < pairs@.len() implies tkeys[k] == pairs@[k].0@ by {
                crate::json::lemma_jv_pair_views_index(pairs@, k);
            }
            assert(tkeys.take(0) =~= Seq::<Seq<char>>::empty());
        }
        let mut i: usize = 0;
        while i < pairs.len()
            invariant
                i <= pairs.len(),
                tkeys.len() == pairs@.len(),
                forall|k: int| 0 <= k < pairs@.len() ==> tkeys[k] == pairs@[k].0@,
                cols_view(columns@) == add_top_keys(cv0, tkeys.take(i as int)),
                columns@.len() >= len0,
                columns@.take(len0 as int) == old(columns)@,
                forall|k: int| len0 <= k < columns@.len() ==> !columns@[k].enabled,
            decreases pairs.len() - i,
        {
            let key = &pairs[i].0;
            if !is_reserved_column(key.as_str()) && !has_top_path(columns, key.as_str()) {
                let mut path: Vec<String> = Vec::new();
                path.push(key.clone());
                let col = ColumnDef::new(key.clone(), path);
                proof {
                    assert(col.path.deep_view() =~= seq![key@]);
                }
                let ghost before = columns@;
                columns.push(col);
                proof {
                    assert(cols_view(columns@) =~= cols_view(before).push(col_view(col)));
                    assert(columns@.take(len0 as int) =~= before.take(len0 as int));
                }
            }
            proof {
                lemma_add_top_snoc(cv0, tkeys.take(i as int), tkeys[i as int]);
                assert(tkeys.take(i + 1 as int) =~= tkeys.take(i as int).push(tkeys[i as int]));
            }
            i = i + 1;
        }
        proof {
            assert(tkeys.take(tkeys.len() as int) =~= tkeys);
        }
    } else {
        proof {
            assert(tkeys =~= Seq::<Seq<char>>::empty());
            assert(add_top_keys(cv0, tkeys) == cv0);
        }
    }
    let ghost cv1 = add_top_keys(cv0, tkeys);
    let data_obj = match payload.get("data") {
        Some(d) => d.as_object(),
        None => None,
    };
    proof {
        reveal_strlit("data");
        assert("data"@ =~= key_data());
    }
    if let Some(pairs) = data_obj {
        proof {
            crate::json::lemma_jv_pair_views_len(pairs@);
            assert forall|k: int| 0 <= k < pairs@.len() implies dkeys[k] == pairs@[k].0@ by {
                crate::json::lemma_jv_pair_views_index(pairs@, k);
            }
            assert(dkeys.take(0) =~= Seq::<Seq<char>>::empty());
        }
        let mut i: usize = 0;
        while i < pairs.len()
            invariant
                i <= pairs.len(),
                dkeys.len() == pairs@.len(),
                forall|k: int| 0 <= k < pairs@.len() ==> dkeys[k] == pairs@[k].0@,
                cols_view(columns@) == add_data_keys(cv1, dkeys.take(i as int)),
                columns@.len() >= len0,
                columns@.take(len0 as int) == old(columns)@,
                forall|k: int| len0 <= k < columns@.len() ==> !columns@[k].enabled,
            decreases pairs.len() - i,
        {
            proof {
                reveal_strlit("data");
                reveal_strlit("data.");
                assert("data"@ =~= key_data());
            }
            let key = &pairs[i].0;
            if !is_reserved_column(key.as_str()) && !has_data_path(columns, key.as_str()) {
                let mut path: Vec<String> = Vec::new();
                path.push(String::from_str("data"));
                path.push(key.clone());
                let mut name = String::from_str("data.");
                name.append(key.as_str());
                let col = ColumnDef::new(name, path);
                proof {
                    assert(col.path.deep_view() =~= seq![key_data(), key@]);
                    assert(col.name@ =~= data_dot(key@));
                }
                let ghost before = columns@;
                columns.push(col);
                proof {
                    assert(cols_view(columns@) =~= cols_view(before).push(col_view(col)));
                    assert(columns@.take(len0 as int) =~= before.take(len0 as int));
                }
            }
            proof {
                lemma_add_data_snoc(cv1, dkeys.take(i as int), dkeys[i as int]);
                assert(dkeys.take(i + 1 as int) =~= dkeys.take(i as int).push(dkeys[i as int]));
            }
            i = i + 1;
        }
        proof {
            assert(dkeys.take(dkeys.len() as int) =~= dkeys);
        }
    } else {
        proof {
            assert(dkeys =~= Seq::<Seq<char>>::empty());
            assert(add_data_keys(cv1, dkeys) == cv1);
        }
    }
    columns.len() > len0
}

} // verus!
