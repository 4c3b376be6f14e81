use vstd::prelude::*;

use crate::text::{chars_to_string, dec_digits, string_to_chars, u64_to_dec};

verus! {

/// An owned, immutable document value: the library's model of a parsed
/// JSON document. Numbers carry their display text.
#[derive(Debug)]
pub enum JsonValue {
    Null,
    Bool(bool),
    Num(String),
    Str(String),
    Arr(Vec<JsonValue>),
    Obj(Vec<(String, JsonValue)>),
}

/// Display classification of a scalar entry, used purely for styling.
#[derive(Debug, Clone, Copy, PartialEq, Eq, Structural)]
pub enum ScalarType {
    String,
    Number,
    Bool,
    Null,
}

/// One entry of the flattened tree view.
#[derive(Debug, Clone)]
pub struct TreeNode {
    pub depth: usize,
    pub key: Option<String>,
    pub kind: NodeKind,
    pub collapsed: bool,
    pub child_count: usize,
}

#[derive(Debug, Clone)]
pub enum NodeKind {
    Object,
    Array,
    Scalar(String, ScalarType),
}

// ---------------------------------------------------------------------------
// Structural paths
// ---------------------------------------------------------------------------

/// The path of an object member: `parent.key`, or just `key` at the root.
pub open spec fn obj_child_path(parent: Seq<char>, key: Seq<char>) -> Seq<char> {
    if parent.len() == 0 {
        key
    } else {
        parent + "."@ + key
    }
}

/// The path of an array element: `parent[index]`.
pub open spec fn arr_child_path(parent: Seq<char>, i: int) -> Seq<char> {
    parent + "["@ + dec_digits(i) + "]"@
}

// ---------------------------------------------------------------------------
// The flattened tree, as a mathematical sequence
// ---------------------------------------------------------------------------

/// Ghost form of one flattened entry.
pub struct NodeView {
    pub depth: int,
    pub key: Option<Seq<char>>,
    pub kind: KindView,
    pub collapsed: bool,
    pub child_count: int,
}

pub enum KindView {
    Object,
    Array,
    Scalar(Seq<char>, ScalarType),
}

/// The display text of a scalar value.
pub open spec fn scalar_text(v: JsonValue) -> Seq<char> {
    match v {
        JsonValue::Null => "null"@,
        JsonValue::Bool(b) => if b {
            "true"@
        } else {
            "false"@
        },
        JsonValue::Num(s) => s@,
        JsonValue::Str(s) => s@,
        _ => Seq::empty(),
    }
}

/// The flattened, collapse-aware display list of a document value: a
/// pre-order depth-first traversal in which the children of a container
/// whose path lies in `c` are omitted while the container itself remains.
pub open spec fn spec_tree(
    v: JsonValue,
    key: Option<Seq<char>>,
    path: Seq<char>,
    depth: int,
    c: Set<Seq<char>>,
) -> Seq<(Seq<char>, NodeView)>
    decreases v, 0int,
{
    match v {
        JsonValue::Arr(items) => {
            let node = NodeView {
                depth,
                key,
                kind: KindView::Array,
                collapsed: c.contains(path),
                child_count: items@.len() as int,
            };
            if c.contains(path) {
                seq![(path, node)]
            } else {
                seq![(path, node)] + tree_arr(items@, 0, path, depth + 1, c)
            }
        },
        JsonValue::Obj(fields) => {
            let node = NodeView {
                depth,
                key,
                kind: KindView::Object,
                collapsed: c.contains(path),
                child_count: fields@.len() as int,
            };
            if c.contains(path) {
                seq![(path, node)]
            } else {
                seq![(path, node)] + tree_obj(fields@, 0, path, depth + 1, c)
            }
        },
        _ => {
            let st = match v {
                JsonValue::Null => ScalarType::Null,
                JsonValue::Bool(_) => ScalarType::Bool,
                JsonValue::Num(_) => ScalarType::Number,
                _ => ScalarType::String,
            };
            seq![
                (
                    path,
                    NodeView {
                        depth,
                        key,
                        kind: KindView::Scalar(scalar_text(v), st),
                        collapsed: false,
                        child_count: 0,
                    },
                ),
            ]
        },
    }
}

/// The flattened entries of the array elements from position `from` on.
pub open spec fn tree_arr(
    items: Seq<JsonValue>,
    from: int,
    parent: Seq<char>,
    depth: int,
    c: Set<Seq<char>>,
) -> Seq<(Seq<char>, NodeView)>
    decreases items, items.len() - from + 1,
{
    if from < 0 || from >= items.len() {
        Seq::empty()
    } else {
        spec_tree(
            items[from],
            Some(dec_digits(from)),
            arr_child_path(parent, from),
            depth,
            c,
        ) + tree_arr(items, from + 1, parent, depth, c)
    }
}

/// The flattened entries of the object members from position `from` on.
pub open spec fn tree_obj(
    fields: Seq<(String, JsonValue)>,
    from: int,
    parent: Seq<char>,
    depth: int,
    c: Set<Seq<char>>,
) -> Seq<(Seq<char>, NodeView)>
    decreases fields, fields.len() - from + 1,
{
    if from < 0 || from >= fields.len() {
        Seq::empty()
    } else {
        spec_tree(
            fields[from].1,
            Some(fields[from].0@),
            obj_child_path(parent, fields[from].0@),
            depth,
            c,
        ) + tree_obj(fields, from + 1, parent, depth, c)
    }
}

// ---------------------------------------------------------------------------
// Height of a document value
// ---------------------------------------------------------------------------

/// Nesting height of a document value: one for a scalar or an empty
/// container, one more for each level of nesting.
pub open spec fn spec_height(v: JsonValue) -> nat
    decreases v, 0int,
{
    match v {
        JsonValue::Arr(items) => 1 + height_arr(items@, 0),
        JsonValue::Obj(fields) => 1 + height_obj(fields@, 0),
        _ => 1,
    }
}

pub open spec fn height_arr(items: Seq<JsonValue>, from: int) -> nat
    decreases items, items.len() - from + 1,
{
    if from < 0 || from >= items.len() {
        0
    } else {
        let h = spec_height(items[from]);
        let rest = height_arr(items, from + 1);
        if h >= rest {
            h
        } else {
            rest
        }
    }
}

pub open spec fn height_obj(fields: Seq<(String, JsonValue)>, from: int) -> nat
    decreases fields, fields.len() - from + 1,
{
    if from < 0 || from >= fields.len() {
        0
    } else {
        let h = spec_height(fields[from].1);
        let rest = height_obj(fields, from + 1);
        if h >= rest {
            h
        } else {
            rest
        }
    }
}

proof fn lemma_height_arr_elem(items: Seq<JsonValue>, from: int, i: int)
    requires
        0 <= from <= i < items.len(),
    ensures
        spec_height(items[i]) <= height_arr(items, from),
    decreases items.len() - from,
{
    if from < i {
        lemma_height_arr_elem(items, from + 1, i);
    }
}

proof fn lemma_height_obj_elem(fields: Seq<(String, JsonValue)>, from: int, i: int)
    requires
        0 <= from <= i < fields.len(),
    ensures
        spec_height(fields[i].1) <= height_obj(fields, from),
    decreases fields.len() - from,
{
    if from < i {
        lemma_height_obj_elem(fields, from + 1, i);
    }
}

// ---------------------------------------------------------------------------
// Node counts, and what collapsing changes
// ---------------------------------------------------------------------------

/// The total number of scalar and container nodes of a document value.
pub open spec fn node_count(v: JsonValue) -> nat
    decreases v, 0int,
{
    match v {
        JsonValue::Arr(items) => 1 + count_arr(items@, 0),
        JsonValue::Obj(fields) => 1 + count_obj(fields@, 0),
        _ => 1,
    }
}

pub open spec fn count_arr(items: Seq<JsonValue>, from: int) -> nat
    decreases items, items.len() - from + 1,
{
    if from < 0 || from >= items.len() {
        0
    } else {
        node_count(items[from]) + count_arr(items, from + 1)
    }
}

pub open spec fn count_obj(fields: Seq<(String, JsonValue)>, from: int) -> nat
    decreases fields, fields.len() - from + 1,
{
    if from < 0 || from >= fields.len() {
        0
    } else {
        node_count(fields[from].1) + count_obj(fields, from + 1)
    }
}

/// With nothing collapsed, the flattened list holds one entry for every
/// scalar and container node reachable by full traversal.
pub proof fn lemma_full_tree_len(v: JsonValue, key: Option<Seq<char>>, path: Seq<char>, depth: int)
    ensures
        spec_tree(v, key, path, depth, Set::empty()).len() == node_count(v),
    decreases v, 0int,
{
    match v {
        JsonValue::Arr(items) => {
            lemma_full_tree_arr_len(items@, 0, path, depth + 1);
        },
        JsonValue::Obj(fields) => {
            lemma_full_tree_obj_len(fields@, 0, path, depth + 1);
        },
        _ => {},
    }
}

proof fn lemma_full_tree_arr_len(items: Seq<JsonValue>, from: int, parent: Seq<char>, depth: int)
    ensures
        tree_arr(items, from, parent, depth, Set::empty()).len() == count_arr(items, from),
    decreases items, items.len() - from + 1,
{
    if 0 <= from < items.len() {
        lemma_full_tree_len(
            items[from],
            Some(dec_digits(from)),
            arr_child_path(parent, from),
            depth,
        );
        lemma_full_tree_arr_len(items, from + 1, parent, depth);
    }
}

proof fn lemma_full_tree_obj_len(
    fields: Seq<(String, JsonValue)>,
    from: int,
    parent: Seq<char>,
    depth: int,
)
    ensures
        tree_obj(fields, from, parent, depth, Set::empty()).len() == count_obj(fields, from),
    decreases fields, fields.len() - from + 1,
{
    if 0 <= from < fields.len() {
        lemma_full_tree_len(
            fields[from].1,
            Some(fields[from].0@),
            obj_child_path(parent, fields[from].0@),
            depth,
        );
        lemma_full_tree_obj_len(fields, from + 1, parent, depth);
    }
}

/// Collapsing a container leaves exactly the container itself in view:
/// against the full traversal of the document, its whole descendant count
/// disappears from the list.
pub proof fn lemma_collapse_container(
    v: JsonValue,
    key: Option<Seq<char>>,
    path: Seq<char>,
    depth: int,
    c: Set<Seq<char>>,
)
    requires
        v matches JsonValue::Arr(_) || v matches JsonValue::Obj(_),
    ensures
        spec_tree(v, key, path, depth, c.insert(path)).len() == 1,
        spec_tree(v, key, path, depth, Set::empty()).len() - spec_tree(
            v,
            key,
            path,
            depth,
            Set::empty().insert(path),
        ).len() == node_count(v) - 1,
{
    lemma_full_tree_len(v, key, path, depth);
}

/// No entry of a flattened list carries the path `q`.
pub open spec fn path_absent(t: Seq<(Seq<char>, NodeView)>, q: Seq<char>) -> bool {
    forall|i: int| 0 <= i < t.len() ==> (#[trigger] t[i]).0 != q
}

/// Collapsing a path that no listed node carries leaves the list unchanged.
pub proof fn lemma_collapse_absent(
    v: JsonValue,
    key: Option<Seq<char>>,
    path: Seq<char>,
    depth: int,
    c: Set<Seq<char>>,
    q: Seq<char>,
)
    requires
        path_absent(spec_tree(v, key, path, depth, c), q),
    ensures
        spec_tree(v, key, path, depth, c.insert(q)) == spec_tree(v, key, path, depth, c),
    decreases v, 0int,
{
    let t = spec_tree(v, key, path, depth, c);
    assert(t[0].0 == path);
    assert(path != q);
    match v {
        JsonValue::Arr(items) => {
            if !c.contains(path) {
                assert(!c.insert(q).contains(path));
                assert forall|i: int|
                    0 <= i < tree_arr(items@, 0, path, depth + 1, c).len() implies (#[trigger]
                tree_arr(items@, 0, path, depth + 1, c)[i]).0 != q by {
                    assert(t[i + 1] == tree_arr(items@, 0, path, depth + 1, c)[i]);
                }
                lemma_collapse_absent_arr(items@, 0, path, depth + 1, c, q);
                assert(spec_tree(v, key, path, depth, c.insert(q)) =~= t);
            } else {
                assert(c.insert(q).contains(path));
                assert(spec_tree(v, key, path, depth, c.insert(q)) =~= t);
            }
        },
        JsonValue::Obj(fields) => {
            if !c.contains(path) {
                assert(!c.insert(q).contains(path));
                assert forall|i: int|
                    0 <= i < tree_obj(fields@, 0, path, depth + 1, c).len() implies (#[trigger]
                tree_obj(fields@, 0, path, depth + 1, c)[i]).0 != q by {
                    assert(t[i + 1] == tree_obj(fields@, 0, path, depth + 1, c)[i]);
                }
                lemma_collapse_absent_obj(fields@, 0, path, depth + 1, c, q);
                assert(spec_tree(v, key, path, depth, c.insert(q)) =~= t);
            } else {
                assert(c.insert(q).contains(path));
                assert(spec_tree(v, key, path, depth, c.insert(q)) =~= t);
            }
        },
        _ => {
            assert(spec_tree(v, key, path, depth, c.insert(q)) =~= t);
        },
    }
}

proof fn lemma_collapse_absent_arr(
    items: Seq<JsonValue>,
    from: int,
    parent: Seq<char>,
    depth: int,
    c: Set<Seq<char>>,
    q: Seq<char>,
)
    requires
        path_absent(tree_arr(items, from, parent, depth, c), q),
    ensures
        tree_arr(items, from, parent, depth, c.insert(q)) == tree_arr(items, from, parent, depth, c),
    decreases items, items.len() - from + 1,
{
    if 0 <= from < items.len() {
        let child = spec_tree(
            items[from],
            Some(dec_digits(from)),
            arr_child_path(parent, from),
            depth,
            c,
        );
        let rest = tree_arr(items, from + 1, parent, depth, c);
        let whole = tree_arr(items, from, parent, depth, c);
        assert(whole == child + rest);
        assert forall|i: int| 0 <= i < child.len() implies (#[trigger] child[i]).0 != q by {
            assert(whole[i] == child[i]);
        }
        assert forall|i: int| 0 <= i < rest.len() implies (#[trigger] rest[i]).0 != q by {
            assert(whole[child.len() + i] == rest[i]);
        }
        lemma_collapse_absent(
            items[from],
            Some(dec_digits(from)),
            arr_child_path(parent, from),
            depth,
            c,
            q,
        );
        lemma_collapse_absent_arr(items, from + 1, parent, depth, c, q);
        assert(tree_arr(items, from, parent, depth, c.insert(q)) =~= whole);
    } else {
        assert(tree_arr(items, from, parent, depth, c.insert(q)) =~= tree_arr(
            items,
            from,
            parent,
            depth,
            c,
        ));
    }
}

proof fn lemma_collapse_absent_obj(
    fields: Seq<(String, JsonValue)>,
    from: int,
    parent: Seq<char>,
    depth: int,
    c: Set<Seq<char>>,
    q: Seq<char>,
)
    requires
        path_absent(tree_obj(fields, from, parent, depth, c), q),
    ensures
        tree_obj(fields, from, parent, depth, c.insert(q)) == tree_obj(fields, from, parent, depth, c),
    decreases fields, fields.len() - from + 1,
{
    if 0 <= from < fields.len() {
        let child = spec_tree(
            fields[from].1,
            Some(fields[from].0@),
            obj_child_path(parent, fields[from].0@),
            depth,
            c,
        );
        let rest = tree_obj(fields, from + 1, parent, depth, c);
        let whole = tree_obj(fields, from, parent, depth, c);
        assert(whole == child + rest);
        assert forall|i: int| 0 <= i < child.len() implies (#[trigger] child[i]).0 != q by {
            assert(whole[i] == child[i]);
        }
        assert forall|i: int| 0 <= i < rest.len() implies (#[trigger] rest[i]).0 != q by {
            assert(whole[child.len() + i] == rest[i]);
        }
        lemma_collapse_absent(
            fields[from].1,
            Some(fields[from].0@),
            obj_child_path(parent, fields[from].0@),
            depth,
            c,
            q,
        );
        lemma_collapse_absent_obj(fields, from + 1, parent, depth, c, q);
        assert(tree_obj(fields, from, parent, depth, c.insert(q)) =~= whole);
    } else {
        assert(tree_obj(fields, from, parent, depth, c.insert(q)) =~= tree_obj(
            fields,
            from,
            parent,
            depth,
            c,
        ));
    }
}

/// How many entries of a flattened list carry the path `q`.
pub open spec fn occurrences(t: Seq<(Seq<char>, NodeView)>, q: Seq<char>) -> nat
    decreases t.len(),
{
    if t.len() == 0 {
        0
    } else {
        (if t[0].0 == q {
            1nat
        } else {
            0nat
        }) + occurrences(t.drop_first(), q)
    }
}

proof fn lemma_occurrences_concat(a: Seq<(Seq<char>, NodeView)>, b: Seq<(Seq<char>, NodeView)>, q: Seq<char>)
    ensures
        occurrences(a + b, q) == occurrences(a, q) + occurrences(b, q),
    decreases a.len(),
{
    if a.len() == 0 {
        assert(a + b =~= b);
    } else {
        assert((a + b)[0] == a[0]);
        assert((a + b).drop_first() =~= a.drop_first() + b);
        lemma_occurrences_concat(a.drop_first(), b, q);
    }
}

proof fn lemma_occurrences_zero_absent(t: Seq<(Seq<char>, NodeView)>, q: Seq<char>)
    ensures
        (occurrences(t, q) == 0) <==> path_absent(t, q),
    decreases t.len(),
{
    if t.len() != 0 {
        lemma_occurrences_zero_absent(t.drop_first(), q);
        if occurrences(t, q) == 0 {
            assert forall|i: int| 0 <= i < t.len() implies (#[trigger] t[i]).0 != q by {
                if i > 0 {
                    assert(t.drop_first()[i - 1] == t[i]);
                }
            }
        }
        if path_absent(t, q) {
            assert forall|i: int|
                0 <= i < t.drop_first().len() implies (#[trigger] t.drop_first()[i]).0 != q by {
                assert(t[i + 1] == t.drop_first()[i]);
            }
        }
    }
}

/// The subtree whose node carries the path `q` in the full traversal of
/// `v` rooted at `path`: the first such subtree in traversal order.
pub open spec fn node_at(v: JsonValue, path: Seq<char>, q: Seq<char>) -> Option<JsonValue>
    decreases v, 0int,
{
    if path == q {
        Option::Some(v)
    } else {
        match v {
            JsonValue::Arr(items) => node_at_arr(items@, 0, path, q),
            JsonValue::Obj(fields) => node_at_obj(fields@, 0, path, q),
            _ => Option::None,
        }
    }
}

pub open spec fn node_at_arr(items: Seq<JsonValue>, from: int, parent: Seq<char>, q: Seq<char>) -> Option<
    JsonValue,
>
    decreases items, items.len() - from + 1,
{
    if from < 0 || from >= items.len() {
        Option::None
    } else {
        match node_at(items[from], arr_child_path(parent, from), q) {
            Option::Some(w) => Option::Some(w),
            Option::None => node_at_arr(items, from + 1, parent, q),
        }
    }
}

pub open spec fn node_at_obj(
    fields: Seq<(String, JsonValue)>,
    from: int,
    parent: Seq<char>,
    q: Seq<char>,
) -> Option<JsonValue>
    decreases fields, fields.len() - from + 1,
{
    if from < 0 || from >= fields.len() {
        Option::None
    } else {
        match node_at(fields[from].1, obj_child_path(parent, fields[from].0@), q) {
            Option::Some(w) => Option::Some(w),
            Option::None => node_at_obj(fields, from + 1, parent, q),
        }
    }
}

proof fn lemma_no_occurrence_no_node(
    v: JsonValue,
    key: Option<Seq<char>>,
    path: Seq<char>,
    depth: int,
    q: Seq<char>,
)
    requires
        occurrences(spec_tree(v, key, path, depth, Set::empty()), q) == 0,
    ensures
        node_at(v, path, q) is None,
    decreases v, 0int,
{
    let t = spec_tree(v, key, path, depth, Set::empty());
    assert(t[0].0 == path);
    assert(path != q) by {
        if path == q {
            assert(occurrences(t, q) >= 1);
        }
    }
    match v {
        JsonValue::Arr(items) => {
            let rest = tree_arr(items@, 0, path, depth + 1, Set::empty());
            assert(t == seq![t[0]] + rest);
            lemma_occurrences_concat(seq![t[0]], rest, q);
            assert(seq![t[0]].drop_first() =~= Seq::<(Seq<char>, NodeView)>::empty());
            assert(occurrences(Seq::<(Seq<char>, NodeView)>::empty(), q) == 0);
            assert(occurrences(rest, q) == 0);
            lemma_no_occurrence_no_node_arr(items@, 0, path, depth + 1, q);
        },
        JsonValue::Obj(fields) => {
            let rest = tree_obj(fields@, 0, path, depth + 1, Set::empty());
            assert(t == seq![t[0]] + rest);
            lemma_occurrences_concat(seq![t[0]], rest, q);
            assert(seq![t[0]].drop_first() =~= Seq::<(Seq<char>, NodeView)>::empty());
            assert(occurrences(Seq::<(Seq<char>, NodeView)>::empty(), q) == 0);
            assert(occurrences(rest, q) == 0);
            lemma_no_occurrence_no_node_obj(fields@, 0, path, depth + 1, q);
        },
        _ => {},
    }
}

proof fn lemma_no_occurrence_no_node_arr(
    items: Seq<JsonValue>,
    from: int,
    parent: Seq<char>,
    depth: int,
    q: Seq<char>,
)
    requires
        occurrences(tree_arr(items, from, parent, depth, Set::empty()), q) == 0,
    ensures
        node_at_arr(items, from, parent, q) is None,
    decreases items, items.len() - from + 1,
{
    if 0 <= from < items.len() {
        let child = spec_tree(
            items[from],
            Some(dec_digits(from)),
            arr_child_path(parent, from),
            depth,
            Set::empty(),
        );
        let rest = tree_arr(items, from + 1, parent, depth, Set::empty());
        lemma_occurrences_concat(child, rest, q);
        lemma_no_occurrence_no_node(
            items[from],
            Some(dec_digits(from)),
            arr_child_path(parent, from),
            depth,
            q,
        );
        lemma_no_occurrence_no_node_arr(items, from + 1, parent, depth, q);
    }
}

proof fn lemma_no_occurrence_no_node_obj(
    fields: Seq<(String, JsonValue)>,
    from: int,
    parent: Seq<char>,
    depth: int,
    q: Seq<char>,
)
    requires
        occurrences(tree_obj(fields, from, parent, depth, Set::empty()), q) == 0,
    ensures
        node_at_obj(fields, from, parent, q) is None,
    decreases fields, fields.len() - from + 1,
{
    if 0 <= from < fields.len() {
        let child = spec_tree(
            fields[from].1,
            Some(fields[from].0@),
            obj_child_path(parent, fields[from].0@),
            depth,
            Set::empty(),
        );
        let rest = tree_obj(fields, from + 1, parent, depth, Set::empty());
        lemma_occurrences_concat(child, rest, q);
        lemma_no_occurrence_no_node(
            fields[from].1,
            Some(fields[from].0@),
            obj_child_path(parent, fields[from].0@),
            depth,
            q,
        );
        lemma_no_occurrence_no_node_obj(fields, from + 1, parent, depth, q);
    }
}

/// Collapsing the path of the one listed node that carries it removes
/// exactly that node's descendant count from the full list: the subtree at
/// the path shrinks to its root entry, everything else stays.
pub proof fn lemma_collapse_removes_descendants(
    v: JsonValue,
    key: Option<Seq<char>>,
    path: Seq<char>,
    depth: int,
    q: Seq<char>,
)
    requires
        occurrences(spec_tree(v, key, path, depth, Set::empty()), q) == 1,
    ensures
        node_at(v, path, q) is Some,
        spec_tree(v, key, path, depth, Set::empty().insert(q)).len() as int == spec_tree(
            v,
            key,
            path,
            depth,
            Set::empty(),
        ).len() - node_count(node_at(v, path, q)->Some_0) + 1,
    decreases v, 0int,
{
    let t = spec_tree(v, key, path, depth, Set::empty());
    let t2 = spec_tree(v, key, path, depth, Set::empty().insert(q));
    assert(t[0].0 == path);
    if path == q {
        lemma_full_tree_len(v, key, path, depth);
        match v {
            JsonValue::Arr(items) => {
                assert(Set::empty().insert(q).contains(path));
                assert(t2.len() == 1);
            },
            JsonValue::Obj(fields) => {
                assert(Set::empty().insert(q).contains(path));
                assert(t2.len() == 1);
            },
            _ => {
                assert(t2.len() == 1);
            },
        }
    } else {
        match v {
            JsonValue::Arr(items) => {
                let rest = tree_arr(items@, 0, path, depth + 1, Set::empty());
                assert(t == seq![t[0]] + rest);
                lemma_occurrences_concat(seq![t[0]], rest, q);
                assert(seq![t[0]].drop_first() =~= Seq::<(Seq<char>, NodeView)>::empty());
                assert(occurrences(Seq::<(Seq<char>, NodeView)>::empty(), q) == 0);
                assert(occurrences(seq![t[0]], q) == 0);
                assert(occurrences(rest, q) == 1);
                lemma_collapse_removes_arr(items@, 0, path, depth + 1, q);
                assert(!Set::empty().insert(q).contains(path));
                assert(t2.len() == 1 + tree_arr(
                    items@,
                    0,
                    path,
                    depth + 1,
                    Set::empty().insert(q),
                ).len());
                assert(t.len() == 1 + rest.len());
            },
            JsonValue::Obj(fields) => {
                let rest = tree_obj(fields@, 0, path, depth + 1, Set::empty());
                assert(t == seq![t[0]] + rest);
                lemma_occurrences_concat(seq![t[0]], rest, q);
                assert(seq![t[0]].drop_first() =~= Seq::<(Seq<char>, NodeView)>::empty());
                assert(occurrences(Seq::<(Seq<char>, NodeView)>::empty(), q) == 0);
                assert(occurrences(seq![t[0]], q) == 0);
                assert(occurrences(rest, q) == 1);
                lemma_collapse_removes_obj(fields@, 0, path, depth + 1, q);
                assert(!Set::empty().insert(q).contains(path));
                assert(t2.len() == 1 + tree_obj(
                    fields@,
                    0,
                    path,
                    depth + 1,
                    Set::empty().insert(q),
                ).len());
                assert(t.len() == 1 + rest.len());
            },
            _ => {
                assert(t.drop_first() =~= Seq::<(Seq<char>, NodeView)>::empty());
                assert(occurrences(Seq::<(Seq<char>, NodeView)>::empty(), q) == 0);
                assert(occurrences(t, q) == 0);
            },
        }
    }
}

proof fn lemma_collapse_removes_arr(
    items: Seq<JsonValue>,
    from: int,
    parent: Seq<char>,
    depth: int,
    q: Seq<char>,
)
    requires
        occurrences(tree_arr(items, from, parent, depth, Set::empty()), q) == 1,
    ensures
        node_at_arr(items, from, parent, q) is Some,
        tree_arr(items, from, parent, depth, Set::empty().insert(q)).len() as int == tree_arr(
            items,
            from,
            parent,
            depth,
            Set::empty(),
        ).len() - node_count(node_at_arr(items, from, parent, q)->Some_0) + 1,
    decreases items, items.len() - from + 1,
{
    if !(0 <= from < items.len()) {
        assert(occurrences(tree_arr(items, from, parent, depth, Set::empty()), q) == 0);
    } else {
        let ckey = Some(dec_digits(from));
        let cpath = arr_child_path(parent, from);
        let child = spec_tree(items[from], ckey, cpath, depth, Set::empty());
        let rest = tree_arr(items, from + 1, parent, depth, Set::empty());
        lemma_occurrences_concat(child, rest, q);
        if occurrences(child, q) == 1 {
            lemma_collapse_removes_descendants(items[from], ckey, cpath, depth, q);
            lemma_occurrences_zero_absent(rest, q);
            lemma_collapse_absent_arr(items, from + 1, parent, depth, Set::empty(), q);
        } else {
            lemma_occurrences_zero_absent(child, q);
            lemma_collapse_absent(items[from], ckey, cpath, depth, Set::empty(), q);
            lemma_no_occurrence_no_node(items[from], ckey, cpath, depth, q);
            lemma_collapse_removes_arr(items, from + 1, parent, depth, q);
        }
    }
}

proof fn lemma_collapse_removes_obj(
    fields: Seq<(String, JsonValue)>,
    from: int,
    parent: Seq<char>,
    depth: int,
    q: Seq<char>,
)
    requires
        occurrences(tree_obj(fields, from, parent, depth, Set::empty()), q) == 1,
    ensures
        node_at_obj(fields, from, parent, q) is Some,
        tree_obj(fields, from, parent, depth, Set::empty().insert(q)).len() as int == tree_obj(
            fields,
            from,
            parent,
            depth,
            Set::empty(),
        ).len() - node_count(node_at_obj(fields, from, parent, q)->Some_0) + 1,
    decreases fields, fields.len() - from + 1,
{
    if !(0 <= from < fields.len()) {
        assert(occurrences(tree_obj(fields, from, parent, depth, Set::empty()), q) == 0);
    } else {
        let ckey = Some(fields[from].0@);
        let cpath = obj_child_path(parent, fields[from].0@);
        let child = spec_tree(fields[from].1, ckey, cpath, depth, Set::empty());
        let rest = tree_obj(fields, from + 1, parent, depth, Set::empty());
        lemma_occurrences_concat(child, rest, q);
        if occurrences(child, q) == 1 {
            lemma_collapse_removes_descendants(fields[from].1, ckey, cpath, depth, q);
            lemma_occurrences_zero_absent(rest, q);
            lemma_collapse_absent_obj(fields, from + 1, parent, depth, Set::empty(), q);
        } else {
            lemma_occurrences_zero_absent(child, q);
            lemma_collapse_absent(fields[from].1, ckey, cpath, depth, Set::empty(), q);
            lemma_no_occurrence_no_node(fields[from].1, ckey, cpath, depth, q);
            lemma_collapse_removes_obj(fields, from + 1, parent, depth, q);
        }
    }
}

/// The collapse set after one toggle of `p`.
pub open spec fn toggle_path(c: Set<Seq<char>>, p: Seq<char>) -> Set<Seq<char>> {
    if c.contains(p) {
        c.remove(p)
    } else {
        c.insert(p)
    }
}

/// Toggling the same path twice restores the collapse set, and with it the
/// rebuilt flattened list.
pub proof fn lemma_toggle_twice(
    v: JsonValue,
    key: Option<Seq<char>>,
    path: Seq<char>,
    depth: int,
    c: Set<Seq<char>>,
    p: Seq<char>,
)
    ensures
        toggle_path(toggle_path(c, p), p) == c,
        spec_tree(v, key, path, depth, toggle_path(toggle_path(c, p), p)) == spec_tree(
            v,
            key,
            path,
            depth,
            c,
        ),
{
    assert(toggle_path(toggle_path(c, p), p) =~= c);
}

// ---------------------------------------------------------------------------
// Views of the executable entries
// ---------------------------------------------------------------------------

pub open spec fn node_view(t: TreeNode) -> NodeView {
    NodeView {
        depth: t.depth as int,
        key: match t.key {
            Option::Some(s) => Option::Some(s@),
            Option::None => Option::None,
        },
        kind: match t.kind {
            NodeKind::Object => KindView::Object,
            NodeKind::Array => KindView::Array,
            NodeKind::Scalar(s, st) => KindView::Scalar(s@, st),
        },
        collapsed: t.collapsed,
        child_count: t.child_count as int,
    }
}

pub open spec fn entry_view(e: (String, TreeNode)) -> (Seq<char>, NodeView) {
    (e.0@, node_view(e.1))
}

pub open spec fn entries_view(s: Seq<(String, TreeNode)>) -> Seq<(Seq<char>, NodeView)> {
    s.map_values(|e: (String, TreeNode)| entry_view(e))
}

// ---------------------------------------------------------------------------
// The set of collapsed paths
// ---------------------------------------------------------------------------

/// The set of structural paths whose subtrees are hidden. Held as a vector
/// without duplicates; viewed as a set of character sequences.
#[derive(Debug)]
pub struct PathSet {
    paths: Vec<String>,
}

impl View for PathSet {
    type V = Set<Seq<char>>;

    closed spec fn view(&self) -> Set<Seq<char>> {
        Set::new(
            |p: Seq<char>|
                exists|i: int| 0 <= i < self.paths@.len() && self.paths@[i]@ == p,
        )
    }
}

impl PathSet {
    /// The empty set of collapsed paths.
    pub fn new() -> (r: PathSet)
        ensures
            r@ == Set::<Seq<char>>::empty(),
    {
        let r = PathSet { paths: Vec::new() };
        proof {
            assert(r@ =~= Set::<Seq<char>>::empty());
        }
        r
    }

    /// Whether `p` is collapsed.
    pub fn contains(&self, p: &String) -> (r: bool)
        ensures
            r == self@.contains(p@),
    {
        let mut i: usize = 0;
        while i < self.paths.len()
            invariant
                i <= self.paths@.len(),
                forall|j: int| 0 <= j < i ==> self.paths@[j]@ != p@,
            decreases self.paths@.len() - i,
        {
            if self.paths[i] == *p {
                proof {
                    assert(self.paths@[i as int]@ == p@);
                    assert(self@.contains(p@));
                }
                return true;
            }
            i = i + 1;
        }
        proof {
            assert(!self@.contains(p@));
        }
        false
    }

    /// Flips membership of `p`: removes a collapsed path, adds one that was
    /// not collapsed.
    pub fn toggle(&mut self, p: &String)
        ensures
            final(self)@ == (if old(self)@.contains(p@) {
                old(self)@.remove(p@)
            } else {
                old(self)@.insert(p@)
            }),
    {
        let ghost old_view = self@;
        if self.contains(p) {
            let mut kept: Vec<String> = Vec::new();
            let mut j: usize = 0;
            while j < self.paths.len()
                invariant
                    j <= self.paths@.len(),
                    self@ == old_view,
                    forall|i: int|
                        0 <= i < kept@.len() ==> kept@[i]@ != p@ && old_view.contains(kept@[i]@),
                    forall|k: int|
                        0 <= k < j && self.paths@[k]@ != p@ ==> exists|i: int|
                            0 <= i < kept@.len() && kept@[i]@ == self.paths@[k]@,
                decreases self.paths@.len() - j,
            {
                if !(self.paths[j] == *p) {
                    let ghost kept_before = kept@;
                    let s = self.paths[j].clone();
                    kept.push(s);
                    proof {
                        assert(self@.contains(self.paths@[j as int]@));
                        assert(kept@[kept@.len() - 1]@ == self.paths@[j as int]@);
                        assert forall|k: int|
                            0 <= k < j + 1 && self.paths@[k]@ != p@ implies exists|i: int|
                                0 <= i < kept@.len() && kept@[i]@ == self.paths@[k]@ by {
                            if k < j {
                                let i0 = choose|i0: int|
                                    0 <= i0 < kept_before.len() && kept_before[i0]@
                                        == self.paths@[k]@;
                                assert(kept@[i0]@ == self.paths@[k]@);
                            } else {
                                assert(kept@[kept@.len() - 1]@ == self.paths@[k]@);
                            }
                        }
                    }
                }
                j = j + 1;
            }
            self.paths = kept;
            proof {
                assert forall|q: Seq<char>| self@.contains(q) implies old_view.remove(
                    p@).contains(q) by {
                    let i = choose|i: int| 0 <= i < self.paths@.len() && self.paths@[i]@ == q;
                    assert(self.paths@[i]@ != p@);
                }
                assert forall|q: Seq<char>| old_view.remove(p@).contains(q) implies self@.contains(
                    q) by {
                    let k = choose|k: int|
                        0 <= k < old(self).paths@.len() && old(self).paths@[k]@ == q;
                }
                assert(self@ =~= old_view.remove(p@));
            }
        } else {
            let copy: String = p.clone();
            self.paths.push(copy);
            proof {
                assert forall|q: Seq<char>| self@.contains(q) implies old_view.insert(
                    p@).contains(q) by {
                    let k = choose|k: int| 0 <= k < self.paths@.len() && self.paths@[k]@ == q;
                    if k < old(self).paths@.len() {
                        assert(old(self).paths@[k]@ == q);
                    }
                }
                assert forall|q: Seq<char>| old_view.insert(p@).contains(q) implies self@.contains(
                    q) by {
                    if q == p@ {
                        assert(self.paths@[self.paths@.len() - 1]@ == q);
                    } else {
                        let k = choose|k: int|
                            0 <= k < old(self).paths@.len() && old(self).paths@[k]@ == q;
                        assert(self.paths@[k]@ == q);
                    }
                }
                assert(self@ =~= old_view.insert(p@));
            }
        }
    }
}

// ---------------------------------------------------------------------------
// Building the flattened tree
// ---------------------------------------------------------------------------

fn scalar_display(v: &JsonValue) -> (r: (String, ScalarType))
    requires
        !(v matches JsonValue::Arr(_)),
        !(v matches JsonValue::Obj(_)),
    ensures
        r.0@ == scalar_text(*v),
        r.1 == (match *v {
            JsonValue::Null => ScalarType::Null,
            JsonValue::Bool(_) => ScalarType::Bool,
            JsonValue::Num(_) => ScalarType::Number,
            _ => ScalarType::String,
        }),
{
    match v {
        JsonValue::Null => ("null".to_owned(), ScalarType::Null),
        JsonValue::Bool(b) => (
            if *b {
                "true".to_owned()
            } else {
                "false".to_owned()
            },
            ScalarType::Bool,
        ),
        JsonValue::Num(s) => (s.clone(), ScalarType::Number),
        _ => {
            match v {
                JsonValue::Str(s) => (s.clone(), ScalarType::String),
                _ => ("".to_owned(), ScalarType::String),
            }
        },
    }
}

#[verifier::loop_isolation(false)]
fn visit_value(
    v: &JsonValue,
    key: Option<String>,
    path: &Vec<char>,
    depth: usize,
    collapsed: &PathSet,
    out: &mut Vec<(String, TreeNode)>,
)
    requires
        depth + spec_height(*v) <= usize::MAX,
    ensures
        entries_view(final(out)@) == entries_view(old(out)@) + spec_tree(
            *v,
            match key {
                Option::Some(s) => Option::Some(s@),
                Option::None => Option::None,
            },
            path@,
            depth as int,
            collapsed@,
        ),
    decreases *v,
{
    let ghost base = entries_view(old(out)@);
    let ghost key_v: Option<Seq<char>> = match &key {
        Option::Some(s) => Option::Some(s@),
        Option::None => Option::None,
    };
    let path_str = chars_to_string(path);
    match v {
        JsonValue::Arr(items) => {
            let is_collapsed = collapsed.contains(&path_str);
            let node = TreeNode {
                depth,
                key,
                kind: NodeKind::Array,
                collapsed: is_collapsed,
                child_count: items.len(),
            };
            out.push((path_str, node));
            proof {
                assert(entries_view(out@) =~= base + seq![
                    (
                        path@,
                        NodeView {
                            depth: depth as int,
                            key: key_v,
                            kind: KindView::Array,
                            collapsed: collapsed@.contains(path@),
                            child_count: items@.len() as int,
                        },
                    ),
                ]);
            }
            if !is_collapsed {
                let ghost with_root = entries_view(out@);
                let mut i: usize = 0;
                while i < items.len()
                    invariant
                        i <= items@.len(),
                        entries_view(out@) + tree_arr(
                            items@,
                            i as int,
                            path@,
                            depth + 1 as int,
                            collapsed@,
                        ) == with_root + tree_arr(
                            items@,
                            0,
                            path@,
                            depth + 1 as int,
                            collapsed@,
                        ),
                    decreases items@.len() - i,
                {
                    let ghost before = entries_view(out@);
                    let mut cp = crate::text::clone_chars(path);
                    cp.push('[');
                    let mut digits = u64_to_dec(i as u64);
                    let key_str = chars_to_string(&digits);
                    cp.append(&mut digits);
                    cp.push(']');
                    proof {
                        reveal_strlit("[");
                        reveal_strlit("]");
                        assert(cp@ =~= arr_child_path(path@, i as int));
                        lemma_height_arr_elem(items@, 0, i as int);
                        assert(*items == v->Arr_0);
                        assert(decreases_to!(*v => v->Arr_0));
                        assert(decreases_to!(v->Arr_0 => v->Arr_0@));
                        assert(decreases_to!(v->Arr_0@ => v->Arr_0@[i as int]));
                        assert(decreases_to!(*v => items@[i as int]));
                    }
                    visit_value(&items[i], Some(key_str), &cp, depth + 1, collapsed, out);
                    proof {
                        assert(entries_view(out@) =~= before + spec_tree(
                            items@[i as int],
                            Option::Some(dec_digits(i as int)),
                            arr_child_path(path@, i as int),
                            depth + 1 as int,
                            collapsed@,
                        ));
                        assert(tree_arr(items@, i as int, path@, depth + 1 as int, collapsed@)
                            =~= spec_tree(
                            items@[i as int],
                            Option::Some(dec_digits(i as int)),
                            arr_child_path(path@, i as int),
                            depth + 1 as int,
                            collapsed@,
                        ) + tree_arr(items@, i + 1 as int, path@, depth + 1 as int, collapsed@));
                        assert(entries_view(out@) + tree_arr(
                            items@,
                            i + 1 as int,
                            path@,
                            depth + 1 as int,
                            collapsed@,
                        ) =~= with_root + tree_arr(items@, 0, path@, depth + 1 as int, collapsed@));
                    }
                    i = i + 1;
                }
                proof {
                    assert(tree_arr(items@, items@.len() as int, path@, depth + 1 as int,
                        collapsed@) =~= Seq::<(Seq<char>, NodeView)>::empty());
                    assert(entries_view(out@) =~= with_root + tree_arr(
                        items@,
                        0,
                        path@,
                        depth + 1 as int,
                        collapsed@,
                    ));
                    assert(entries_view(out@) =~= base + spec_tree(
                        *v,
                        key_v,
                        path@,
                        depth as int,
                        collapsed@,
                    ));
                }
            } else {
                proof {
                    assert(entries_view(out@) =~= base + spec_tree(
                        *v,
                        key_v,
                        path@,
                        depth as int,
                        collapsed@,
                    ));
                }
            }
        },
        JsonValue::Obj(fields) => {
            let is_collapsed = collapsed.contains(&path_str);
            let node = TreeNode {
                depth,
                key,
                kind: NodeKind::Object,
                collapsed: is_collapsed,
                child_count: fields.len(),
            };
            out.push((path_str, node));
            proof {
                assert(entries_view(out@) =~= base + seq![
                    (
                        path@,
                        NodeView {
                            depth: depth as int,
                            key: key_v,
                            kind: KindView::Object,
                            collapsed: collapsed@.contains(path@),
                            child_count: fields@.len() as int,
                        },
                    ),
                ]);
            }
            if !is_collapsed {
                let ghost with_root = entries_view(out@);
                let mut i: usize = 0;
                while i < fields.len()
                    invariant
                        i <= fields@.len(),
                        entries_view(out@) + tree_obj(
                            fields@,
                            i as int,
                            path@,
                            depth + 1 as int,
                            collapsed@,
                        ) == with_root + tree_obj(
                            fields@,
                            0,
                            path@,
                            depth + 1 as int,
                            collapsed@,
                        ),
                    decreases fields@.len() - i,
                {
                    let ghost before = entries_view(out@);
                    let k = fields[i].0.clone();
                    let mut cp: Vec<char>;
                    if path.len() == 0 {
                        cp = string_to_chars(k.as_str());
                    } else {
                        cp = crate::text::clone_chars(path);
                        cp.push('.');
                        let mut kc = string_to_chars(k.as_str());
                        cp.append(&mut kc);
                    }
                    proof {
                        reveal_strlit(".");
                        assert(cp@ =~= obj_child_path(path@, fields@[i as int].0@));
                        lemma_height_obj_elem(fields@, 0, i as int);
                        assert(*fields == v->Obj_0);
                        assert(decreases_to!(*v => v->Obj_0));
                        assert(decreases_to!(v->Obj_0 => v->Obj_0@));
                        assert(decreases_to!(v->Obj_0@ => v->Obj_0@[i as int]));
                        assert(decreases_to!(v->Obj_0@[i as int] => v->Obj_0@[i as int].1));
                        assert(decreases_to!(*v => fields@[i as int].1));
                    }
                    visit_value(&fields[i].1, Some(k), &cp, depth + 1, collapsed, out);
                    proof {
                        assert(entries_view(out@) =~= before + spec_tree(
                            fields@[i as int].1,
                            Option::Some(fields@[i as int].0@),
                            obj_child_path(path@, fields@[i as int].0@),
                            depth + 1 as int,
                            collapsed@,
                        ));
                        assert(tree_obj(fields@, i as int, path@, depth + 1 as int, collapsed@)
                            =~= spec_tree(
                            fields@[i as int].1,
                            Option::Some(fields@[i as int].0@),
                            obj_child_path(path@, fields@[i as int].0@),
                            depth + 1 as int,
                            collapsed@,
                        ) + tree_obj(fields@, i + 1 as int, path@, depth + 1 as int, collapsed@));
                        assert(entries_view(out@) + tree_obj(
                            fields@,
                            i + 1 as int,
                            path@,
                            depth + 1 as int,
                            collapsed@,
                        ) =~= with_root + tree_obj(fields@, 0, path@, depth + 1 as int,
                            collapsed@));
                    }
                    i = i + 1;
                }
                proof {
                    assert(tree_obj(fields@, fields@.len() as int, path@, depth + 1 as int,
                        collapsed@) =~= Seq::<(Seq<char>, NodeView)>::empty());
                    assert(entries_view(out@) =~= base + spec_tree(
                        *v,
                        key_v,
                        path@,
                        depth as int,
                        collapsed@,
                    ));
                }
            } else {
                proof {
                    assert(entries_view(out@) =~= base + spec_tree(
                        *v,
                        key_v,
                        path@,
                        depth as int,
                        collapsed@,
                    ));
                }
            }
        },
        _ => {
            let (text, st) = scalar_display(v);
            let node = TreeNode {
                depth,
                key,
                kind: NodeKind::Scalar(text, st),
                collapsed: false,
                child_count: 0,
            };
            out.push((path_str, node));
            proof {
                assert(entries_view(out@) =~= base + spec_tree(
                    *v,
                    key_v,
                    path@,
                    depth as int,
                    collapsed@,
                ));
            }
        },
    }
}

/// Flattens a document into its collapse-aware display list: the pre-order
/// depth-first traversal, with every subtree under a collapsed path omitted
/// while the collapsed container itself stays listed.
pub fn build_tree(root: &JsonValue, collapsed: &PathSet) -> (r: Vec<(String, TreeNode)>)
    requires
        spec_height(*root) <= usize::MAX,
    ensures
        entries_view(r@) == spec_tree(*root, Option::None, Seq::empty(), 0, collapsed@),
{
    let mut out: Vec<(String, TreeNode)> = Vec::new();
    let empty_path: Vec<char> = Vec::new();
    visit_value(root, Option::None, &empty_path, 0, collapsed, &mut out);
    proof {
        assert(entries_view(Seq::<(String, TreeNode)>::empty()) =~= Seq::<
            (Seq<char>, NodeView),
        >::empty());
        assert(entries_view(out@) =~= spec_tree(
            *root,
            Option::None,
            Seq::empty(),
            0,
            collapsed@,
        ));
    }
    out
}

} // verus!
