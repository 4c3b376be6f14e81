use vstd::prelude::*;

use crate::text::{chars_to_string, dec_digits, extension_of, lemma_lex_refl, lemma_lex_total,
    lex_le, lex_le_chars, string_to_chars, u64_to_dec};
use crate::tree::JsonValue;

verus! {

/// How a loaded document is treated: as plain JSON, or as a geographic
/// feature collection.
#[derive(Debug, Clone, Copy, PartialEq, Eq, Structural)]
pub enum FileKind {
    Json,
    GeoJson,
}

// ---------------------------------------------------------------------------
// Member lookup
// ---------------------------------------------------------------------------

/// The value of the first member named `key` in an object's field list.
pub open spec fn obj_get(fields: Seq<(String, JsonValue)>, key: Seq<char>) -> Option<JsonValue>
    decreases fields.len(),
{
    if fields.len() == 0 {
        Option::None
    } else if fields[0].0@ == key {
        Option::Some(fields[0].1)
    } else {
        obj_get(fields.drop_first(), key)
    }
}

/// Member lookup: the named member of an object value, nothing on any
/// other value.
pub open spec fn spec_get(v: JsonValue, key: Seq<char>) -> Option<JsonValue> {
    match v {
        JsonValue::Obj(fields) => obj_get(fields@, key),
        _ => Option::None,
    }
}

/// Looks up a member of an object value by name.
#[verifier::loop_isolation(false)]
pub fn json_get<'a>(v: &'a JsonValue, key: &str) -> (r: Option<&'a JsonValue>)
    ensures
        match r {
            Option::Some(x) => spec_get(*v, key@) == Option::Some(*x),
            Option::None => spec_get(*v, key@) is None,
        },
{
    match v {
        JsonValue::Obj(fields) => {
            let key_s: String = key.to_owned();
            let mut i: usize = 0;
            proof {
                assert(fields@.skip(0) =~= fields@);
            }
            loop
                invariant
                    i <= fields@.len(),
                    key_s@ == key@,
                    obj_get(fields@, key@) == obj_get(fields@.skip(i as int), key@),
                decreases fields@.len() - i,
            {
                if i == fields.len() {
                    proof {
                        assert(fields@.skip(i as int) =~= Seq::<(String, JsonValue)>::empty());
                        assert(obj_get(Seq::<(String, JsonValue)>::empty(), key@) is None);
                    }
                    return None;
                }
                if fields[i].0 == key_s {
                    proof {
                        assert(fields@.skip(i as int).len() != 0);
                        assert(fields@.skip(i as int)[0] == fields@[i as int]);
                        assert(obj_get(fields@.skip(i as int), key@) == Option::Some(
                            fields@[i as int].1,
                        ));
                    }
                    return Some(&fields[i].1);
                }
                proof {
                    assert(fields@.skip(i as int).len() != 0);
                    assert(fields@.skip(i as int).drop_first() =~= fields@.skip(i + 1 as int));
                    assert(fields@.skip(i as int)[0] == fields@[i as int]);
                }
                i = i + 1;
            }
        },
        _ => None,
    }
}

// ---------------------------------------------------------------------------
// Kind detection
// ---------------------------------------------------------------------------

/// A document is geographic if its file extension is the geographic one, or
/// its top-level `type` member is `FeatureCollection` or `Feature`.
pub open spec fn spec_detect_kind(path: Seq<char>, root: JsonValue) -> FileKind {
    if extension_of(path) == "geojson"@ {
        FileKind::GeoJson
    } else if (match spec_get(root, "type"@) {
        Option::Some(JsonValue::Str(s)) => s@ == "FeatureCollection"@ || s@ == "Feature"@,
        _ => false,
    }) {
        FileKind::GeoJson
    } else {
        FileKind::Json
    }
}

/// Decides whether a document is treated as geographic.
pub fn detect_kind(path: &str, root: &JsonValue) -> (r: FileKind)
    ensures
        r == spec_detect_kind(path@, *root),
{
    let ext = crate::text::path_extension(path);
    let geo: String = "geojson".to_owned();
    if ext == geo {
        return FileKind::GeoJson;
    }
    match json_get(root, "type") {
        Some(JsonValue::Str(s)) => {
            let fc: String = "FeatureCollection".to_owned();
            let fe: String = "Feature".to_owned();
            if *s == fc || *s == fe {
                FileKind::GeoJson
            } else {
                FileKind::Json
            }
        },
        _ => FileKind::Json,
    }
}

// ---------------------------------------------------------------------------
// Display text of a property value
// ---------------------------------------------------------------------------

/// The display text of a property value: scalars print themselves, a
/// container prints its size in brackets or braces.
pub open spec fn value_display(v: JsonValue) -> Seq<char> {
    match v {
        JsonValue::Null => "null"@,
        JsonValue::Bool(b) => if b {
            "true"@
        } else {
            "false"@
        },
        JsonValue::Num(s) => s@,
        JsonValue::Str(s) => s@,
        JsonValue::Arr(a) => "["@ + dec_digits(a@.len() as int) + "]"@,
        JsonValue::Obj(o) => "{"@ + dec_digits(o@.len() as int) + "}"@,
    }
}

/// Renders a property value for a table cell.
pub fn value_to_display(v: &JsonValue) -> (r: String)
    ensures
        r@ == value_display(*v),
{
    match v {
        JsonValue::Null => "null".to_owned(),
        JsonValue::Bool(b) => if *b {
            "true".to_owned()
        } else {
            "false".to_owned()
        },
        JsonValue::Num(s) => s.clone(),
        JsonValue::Str(s) => s.clone(),
        JsonValue::Arr(a) => {
            let mut out: Vec<char> = Vec::new();
            out.push('[');
            let mut d = u64_to_dec(a.len() as u64);
            out.append(&mut d);
            out.push(']');
            proof {
                reveal_strlit("[");
                reveal_strlit("]");
                assert(out@ =~= value_display(*v));
            }
            chars_to_string(&out)
        },
        JsonValue::Obj(o) => {
            let mut out: Vec<char> = Vec::new();
            out.push('{');
            let mut d = u64_to_dec(o.len() as u64);
            out.append(&mut d);
            out.push('}');
            proof {
                reveal_strlit("{");
                reveal_strlit("}");
                assert(out@ =~= value_display(*v));
            }
            chars_to_string(&out)
        },
    }
}

// ---------------------------------------------------------------------------
// Coordinate pairs
// ---------------------------------------------------------------------------

pub open spec fn is_num(v: JsonValue) -> bool {
    v matches JsonValue::Num(_)
}

pub open spec fn num_text(v: JsonValue) -> Seq<char> {
    match v {
        JsonValue::Num(s) => s@,
        _ => Seq::empty(),
    }
}

/// The display texts of every coordinate pair under `v`, in traversal
/// order. A node is a coordinate pair when it is an array of length at
/// least two whose first two elements are numbers; any other array is
/// searched element by element.
pub open spec fn coords_of(v: JsonValue) -> Seq<(Seq<char>, Seq<char>)>
    decreases v, 0int,
{
    match v {
        JsonValue::Arr(items) => if items@.len() >= 2 && is_num(items@[0]) && is_num(
            items@[1],
        ) {
            seq![(num_text(items@[0]), num_text(items@[1]))]
        } else {
            coords_arr(items@, 0)
        },
        _ => Seq::empty(),
    }
}

pub open spec fn coords_arr(items: Seq<JsonValue>, from: int) -> Seq<(Seq<char>, Seq<char>)>
    decreases items, items.len() - from + 1,
{
    if from < 0 || from >= items.len() {
        Seq::empty()
    } else {
        coords_of(items[from]) + coords_arr(items, from + 1)
    }
}

pub open spec fn pairs_view(s: Seq<(String, String)>) -> Seq<(Seq<char>, Seq<char>)> {
    s.map_values(|p: (String, String)| (p.0@, p.1@))
}

fn is_number(v: &JsonValue) -> (r: bool)
    ensures
        r == is_num(*v),
{
    match v {
        JsonValue::Num(_) => true,
        _ => false,
    }
}

#[verifier::loop_isolation(false)]
fn visit_coords(v: &JsonValue, out: &mut Vec<(String, String)>)
    ensures
        pairs_view(final(out)@) == pairs_view(old(out)@) + coords_of(*v),
    decreases *v,
{
    match v {
        JsonValue::Arr(items) => {
            let take_pair = items.len() >= 2 && is_number(&items[0]) && is_number(&items[1]);
            if take_pair {
                let lon = match &items[0] {
                    JsonValue::Num(s) => s.clone(),
                    _ => String::new(),
                };
                let lat = match &items[1] {
                    JsonValue::Num(s) => s.clone(),
                    _ => String::new(),
                };
                out.push((lon, lat));
                proof {
                    assert(pairs_view(out@) =~= pairs_view(old(out)@) + coords_of(*v));
                }
            } else {
                let ghost base = pairs_view(out@);
                let mut i: usize = 0;
                while i < items.len()
                    invariant
                        i <= items@.len(),
                        pairs_view(out@) + coords_arr(items@, i as int) == base + coords_arr(
                            items@,
                            0,
                        ),
                    decreases items@.len() - i,
                {
                    let ghost before = pairs_view(out@);
                    proof {
                        assert(decreases_to!(*v => v->Arr_0));
                        assert(decreases_to!(v->Arr_0 => v->Arr_0@));
                        assert(decreases_to!(v->Arr_0@ => v->Arr_0@[i as int]));
                        assert(decreases_to!(*v => items@[i as int]));
                    }
                    visit_coords(&items[i], out);
                    proof {
                        assert(coords_arr(items@, i as int) =~= coords_of(items@[i as int])
                            + coords_arr(items@, i + 1 as int));
                        assert(pairs_view(out@) + coords_arr(items@, i + 1 as int) =~= base
                            + coords_arr(items@, 0));
                    }
                    i = i + 1;
                }
                proof {
                    assert(coords_arr(items@, items@.len() as int) =~= Seq::<
                        (Seq<char>, Seq<char>),
                    >::empty());
                    assert(pairs_view(out@) =~= pairs_view(old(out)@) + coords_of(*v));
                }
            }
        },
        _ => {
            proof {
                assert(pairs_view(out@) =~= pairs_view(old(out)@) + coords_of(*v));
            }
        },
    }
}

// ---------------------------------------------------------------------------
// Sorted distinct name lists
// ---------------------------------------------------------------------------

/// The set of character sequences a string list holds.
pub open spec fn str_set(s: Seq<String>) -> Set<Seq<char>> {
    Set::new(|q: Seq<char>| exists|i: int| 0 <= i < s.len() && s[i]@ == q)
}

/// Strictly earlier in code-point order.
pub open spec fn str_lt(a: Seq<char>, b: Seq<char>) -> bool {
    lex_le(a, b) && a != b
}

/// Strictly ascending in code-point order: sorted, with no duplicates.
pub open spec fn sorted_unique(s: Seq<String>) -> bool {
    forall|i: int| 0 <= i < s.len() - 1 ==> #[trigger] str_lt(s[i]@, s[i + 1]@)
}

fn insert_sorted_unique(v: &mut Vec<String>, s: String)
    requires
        sorted_unique(old(v)@),
    ensures
        sorted_unique(final(v)@),
        str_set(final(v)@) == str_set(old(v)@).insert(s@),
{
    let s_chars = string_to_chars(s.as_str());
    let mut i: usize = 0;
    loop
        invariant_except_break
            i <= v@.len(),
            v@ == old(v)@,
            sorted_unique(v@),
            s_chars@ == s@,
            forall|j: int| 0 <= j < i ==> #[trigger] str_lt(v@[j]@, s@),
        ensures
            i <= v@.len(),
            v@ == old(v)@,
            sorted_unique(v@),
            forall|j: int| 0 <= j < i ==> #[trigger] str_lt(v@[j]@, s@),
            i == v@.len() || (!lex_le(v@[i as int]@, s@) && v@[i as int]@ != s@),
        decreases v@.len() - i,
    {
        if i == v.len() {
            break;
        }
        if v[i] == s {
            proof {
                assert(v@[i as int]@ == s@);
                assert(str_set(v@).contains(s@));
                assert(str_set(v@) =~= str_set(old(v)@).insert(s@));
            }
            return;
        }
        let vi_chars = string_to_chars(v[i].as_str());
        if !lex_le_chars(&vi_chars, &s_chars) {
            break;
        }
        proof {
            assert(vi_chars@ == v@[i as int]@);
            assert(str_lt(v@[i as int]@, s@));
        }
        i = i + 1;
    }
    let ghost old_seq = v@;
    let ghost pos = i as int;
    v.insert(i, s);
    proof {
        assert(v@ == old_seq.insert(pos, s));
        assert(v@.len() == old_seq.len() + 1);
        assert(forall|j: int| 0 <= j < pos ==> v@[j] == old_seq[j]);
        assert(v@[pos] == s);
        assert(forall|j: int| pos < j < v@.len() ==> v@[j] == old_seq[j - 1]);
        assert forall|a: int| 0 <= a < v@.len() - 1 implies #[trigger] str_lt(
            v@[a]@,
            v@[a + 1]@,
        ) by {
            if a + 1 < pos {
                assert(v@[a] == old_seq[a]);
                assert(v@[a + 1] == old_seq[a + 1]);
                assert(str_lt(old_seq[a]@, old_seq[a + 1]@));
            } else if a + 1 == pos {
                assert(v@[a] == old_seq[a]);
                assert(v@[a + 1] == s);
                assert(str_lt(old_seq[a]@, s@));
            } else if a == pos {
                assert(v@[a] == s);
                assert(v@[a + 1] == old_seq[a]);
                lemma_lex_total(old_seq[a]@, s@);
                lemma_lex_refl(s@);
                assert(str_lt(s@, old_seq[a]@));
            } else {
                let b = a - 1;
                assert(v@[a] == old_seq[b]);
                assert(v@[a + 1] == old_seq[b + 1]);
                assert(str_lt(old_seq[b]@, old_seq[b + 1]@));
            }
        }
        assert forall|q: Seq<char>| str_set(v@).contains(q) implies str_set(old_seq).insert(
            s@).contains(q) by {
            let k = choose|k: int| 0 <= k < v@.len() && v@[k]@ == q;
            if k < pos {
                assert(old_seq[k]@ == q);
            } else if k > pos {
                assert(old_seq[k - 1]@ == q);
            }
        }
        assert forall|q: Seq<char>| str_set(old_seq).insert(s@).contains(q) implies str_set(
            v@).contains(q) by {
            if q == s@ {
                assert(v@[pos]@ == q);
            } else {
                let k = choose|k: int| 0 <= k < old_seq.len() && old_seq[k]@ == q;
                if k < pos {
                    assert(v@[k]@ == q);
                } else {
                    assert(v@[k + 1]@ == q);
                }
            }
        }
        assert(str_set(v@) =~= str_set(old_seq).insert(s@));
    }
}

// ---------------------------------------------------------------------------
// The geographic summary and the feature table
// ---------------------------------------------------------------------------

/// The feature list of a geographic document: the top-level `features`
/// array, or nothing.
pub open spec fn features_of(root: JsonValue) -> Seq<JsonValue> {
    match spec_get(root, "features"@) {
        Option::Some(JsonValue::Arr(items)) => items@,
        _ => Seq::empty(),
    }
}

/// The set of geometry type names of the features from position `from` on.
pub open spec fn type_set_from(fs: Seq<JsonValue>, from: int) -> Set<Seq<char>>
    decreases fs.len() - from,
{
    if from < 0 || from >= fs.len() {
        Set::empty()
    } else {
        (match spec_get(fs[from], "geometry"@) {
            Option::Some(g) => match spec_get(g, "type"@) {
                Option::Some(JsonValue::Str(s)) => Set::empty().insert(s@),
                _ => Set::empty(),
            },
            Option::None => Set::empty(),
        }).union(type_set_from(fs, from + 1))
    }
}

/// The set of geometry type names of a feature list.
pub open spec fn geometry_type_set(fs: Seq<JsonValue>) -> Set<Seq<char>> {
    type_set_from(fs, 0)
}

/// The coordinate pairs of the features from position `from` on, walking
/// each feature's geometry `coordinates` value.
pub open spec fn feature_coords(fs: Seq<JsonValue>, from: int) -> Seq<(Seq<char>, Seq<char>)>
    decreases fs.len() - from,
{
    if from < 0 || from >= fs.len() {
        Seq::empty()
    } else {
        (match spec_get(fs[from], "geometry"@) {
            Option::Some(g) => match spec_get(g, "coordinates"@) {
                Option::Some(cv) => coords_of(cv),
                Option::None => Seq::empty(),
            },
            Option::None => Seq::empty(),
        }) + feature_coords(fs, from + 1)
    }
}

// ---------------------------------------------------------------------------
// The feature property table
// ---------------------------------------------------------------------------

/// The property list of a feature: its `properties` member when that member
/// is an object.
pub open spec fn props_of(f: JsonValue) -> Seq<(String, JsonValue)> {
    match spec_get(f, "properties"@) {
        Option::Some(JsonValue::Obj(ps)) => ps@,
        _ => Seq::empty(),
    }
}

pub open spec fn strs_view(s: Seq<String>) -> Seq<Seq<char>> {
    s.map_values(|x: String| x@)
}

/// Whether a header list already holds `k`.
pub open spec fn headers_contain(acc: Seq<Seq<char>>, k: Seq<char>) -> bool {
    exists|i: int| 0 <= i < acc.len() && acc[i] == k
}

/// Header accumulation over one feature's property keys, keeping first-seen
/// order and skipping keys already present.
pub open spec fn add_keys(acc: Seq<Seq<char>>, ps: Seq<(String, JsonValue)>, from: int) -> Seq<
    Seq<char>,
>
    decreases ps.len() - from,
{
    if from < 0 || from >= ps.len() {
        acc
    } else {
        add_keys(
            if headers_contain(acc, ps[from].0@) {
                acc
            } else {
                acc.push(ps[from].0@)
            },
            ps,
            from + 1,
        )
    }
}

/// The table headers: the union of all property keys over the features from
/// position `from` on, in first-seen order.
pub open spec fn headers_from(fs: Seq<JsonValue>, from: int, acc: Seq<Seq<char>>) -> Seq<Seq<char>>
    decreases fs.len() - from,
{
    if from < 0 || from >= fs.len() {
        acc
    } else {
        headers_from(fs, from + 1, add_keys(acc, props_of(fs[from]), 0))
    }
}

/// One table cell: the display text of the named property, the literal text
/// `null` when the feature has no such property.
pub open spec fn cell_text(f: JsonValue, key: Seq<char>) -> Seq<char> {
    match spec_get(f, "properties"@) {
        Option::Some(p) => match spec_get(p, key) {
            Option::Some(v) => value_display(v),
            Option::None => "null"@,
        },
        Option::None => "null"@,
    }
}

/// One table row: one cell per header.
pub open spec fn row_of(f: JsonValue, hs: Seq<Seq<char>>) -> Seq<Seq<char>> {
    Seq::new(hs.len(), |j: int| cell_text(f, hs[j]))
}

fn contains_str(v: &Vec<String>, s: &String) -> (r: bool)
    ensures
        r == headers_contain(strs_view(v@), s@),
{
    let mut i: usize = 0;
    while i < v.len()
        invariant
            i <= v@.len(),
            forall|j: int| 0 <= j < i ==> strs_view(v@)[j] != s@,
        decreases v@.len() - i,
    {
        if v[i] == *s {
            proof {
                assert(strs_view(v@)[i as int] == s@);
            }
            return true;
        }
        proof {
            assert(strs_view(v@)[i as int] == v@[i as int]@);
        }
        i = i + 1;
    }
    proof {
        if headers_contain(strs_view(v@), s@) {
            let j = choose|j: int| 0 <= j < strs_view(v@).len() && strs_view(v@)[j] == s@;
        }
    }
    false
}

/// A parsed document together with its detected kind.
#[derive(Debug)]
pub struct JsonInspector {
    pub root: JsonValue,
    pub kind: FileKind,
}

impl JsonInspector {
    /// Wraps an already parsed document with its detected kind.
    pub fn from_parts(root: JsonValue, kind: FileKind) -> (r: JsonInspector)
        ensures
            r.root == root,
            r.kind == kind,
    {
        JsonInspector { root, kind }
    }

    /// The geographic summary: the feature count, the sorted distinct
    /// geometry type names, and the display texts of every coordinate pair
    /// (a bounding box exists exactly when that list is non-empty).
    pub fn geojson_summary(&self) -> (r: (usize, Vec<String>, Vec<(String, String)>))
        ensures
            r.0 == features_of(self.root).len(),
            sorted_unique(r.1@),
            str_set(r.1@) == geometry_type_set(features_of(self.root)),
            pairs_view(r.2@) == feature_coords(features_of(self.root), 0),
    {
        let features: &Vec<JsonValue> = match json_get(&self.root, "features") {
            Some(JsonValue::Arr(items)) => items,
            _ => {
                proof {
                    assert(features_of(self.root) =~= Seq::<JsonValue>::empty());
                    assert(str_set(Seq::<String>::empty()) =~= geometry_type_set(
                        features_of(self.root),
                    ));
                    assert(pairs_view(Seq::<(String, String)>::empty()) =~= feature_coords(
                        features_of(self.root),
                        0,
                    ));
                }
                return (0, Vec::new(), Vec::new());
            },
        };
        proof {
            assert(features@ == features_of(self.root));
            assert(str_set(Seq::<String>::empty()) =~= Set::<Seq<char>>::empty());
        }
        let mut types: Vec<String> = Vec::new();
        let mut coords: Vec<(String, String)> = Vec::new();
        let mut i: usize = 0;
        while i < features.len()
            invariant
                i <= features@.len(),
                sorted_unique(types@),
                str_set(types@).union(type_set_from(features@, i as int)) == type_set_from(
                    features@,
                    0,
                ),
                pairs_view(coords@) + feature_coords(features@, i as int) == feature_coords(
                    features@,
                    0,
                ),
            decreases features@.len() - i,
        {
            let ghost tbefore = str_set(types@);
            let ghost cbefore = pairs_view(coords@);
            match json_get(&features[i], "geometry") {
                Some(g) => {
                    match json_get(g, "type") {
                        Some(JsonValue::Str(s)) => {
                            let name = s.clone();
                            insert_sorted_unique(&mut types, name);
                            proof {
                                assert(type_set_from(features@, i as int) =~= Set::empty().insert(
                                    s@,
                                ).union(type_set_from(features@, i + 1 as int)));
                                assert(str_set(types@).union(
                                    type_set_from(features@, i + 1 as int),
                                ) =~= type_set_from(features@, 0));
                            }
                        },
                        _ => {
                            proof {
                                assert(type_set_from(features@, i as int) =~= type_set_from(
                                    features@,
                                    i + 1 as int,
                                ));
                            }
                        },
                    }
                    match json_get(g, "coordinates") {
                        Some(cv) => {
                            visit_coords(cv, &mut coords);
                            proof {
                                assert(feature_coords(features@, i as int) =~= coords_of(*cv)
                                    + feature_coords(features@, i + 1 as int));
                                assert(pairs_view(coords@) + feature_coords(
                                    features@,
                                    i + 1 as int,
                                ) =~= feature_coords(features@, 0));
                            }
                        },
                        None => {
                            proof {
                                assert(feature_coords(features@, i as int) =~= feature_coords(
                                    features@,
                                    i + 1 as int,
                                ));
                            }
                        },
                    }
                },
                None => {
                    proof {
                        assert(type_set_from(features@, i as int) =~= type_set_from(
                            features@,
                            i + 1 as int,
                        ));
                        assert(feature_coords(features@, i as int) =~= feature_coords(
                            features@,
                            i + 1 as int,
                        ));
                    }
                },
            }
            i = i + 1;
        }
        proof {
            assert(type_set_from(features@, features@.len() as int) =~= Set::<Seq<char>>::empty());
            assert(str_set(types@) =~= geometry_type_set(features@));
            assert(feature_coords(features@, features@.len() as int) =~= Seq::<
                (Seq<char>, Seq<char>),
            >::empty());
            assert(pairs_view(coords@) =~= feature_coords(features@, 0));
        }
        (features.len(), types, coords)
    }

    /// The feature property table: the headers are the union of all property
    /// keys over all features in first-seen order; each row gives, per
    /// header, the property's display text, or the literal text `null` when
    /// a feature has no such property.
    #[verifier::loop_isolation(false)]
    pub fn features_table(&self) -> (r: (Vec<String>, Vec<Vec<String>>))
        ensures
            strs_view(r.0@) == headers_from(features_of(self.root), 0, Seq::empty()),
            r.1@.len() == features_of(self.root).len(),
            forall|i: int|
                0 <= i < r.1@.len() ==> strs_view(#[trigger] r.1@[i]@) == row_of(
                    features_of(self.root)[i],
                    strs_view(r.0@),
                ),
    {
        let features: &Vec<JsonValue> = match json_get(&self.root, "features") {
            Some(JsonValue::Arr(items)) => items,
            _ => {
                proof {
                    assert(features_of(self.root) =~= Seq::<JsonValue>::empty());
                    assert(strs_view(Seq::<String>::empty()) =~= headers_from(
                        features_of(self.root),
                        0,
                        Seq::empty(),
                    ));
                }
                return (Vec::new(), Vec::new());
            },
        };
        proof {
            assert(features@ == features_of(self.root));
            assert(strs_view(Seq::<String>::empty()) =~= Seq::<Seq<char>>::empty());
        }
        let mut headers: Vec<String> = Vec::new();
        let mut i: usize = 0;
        while i < features.len()
            invariant
                i <= features@.len(),
                headers_from(features@, i as int, strs_view(headers@)) == headers_from(
                    features@,
                    0,
                    Seq::empty(),
                ),
            decreases features@.len() - i,
        {
            match json_get(&features[i], "properties") {
                Some(JsonValue::Obj(ps)) => {
                    proof {
                        assert(props_of(features@[i as int]) == ps@);
                    }
                    let mut j: usize = 0;
                    while j < ps.len()
                        invariant
                            j <= ps@.len(),
                            headers_from(
                                features@,
                                i + 1 as int,
                                add_keys(strs_view(headers@), ps@, j as int),
                            ) == headers_from(features@, 0, Seq::empty()),
                        decreases ps@.len() - j,
                    {
                        let ghost acc = strs_view(headers@);
                        let key = ps[j].0.clone();
                        if !contains_str(&headers, &key) {
                            headers.push(key);
                            proof {
                                assert(strs_view(headers@) =~= acc.push(ps@[j as int].0@));
                            }
                        }
                        proof {
                            assert(add_keys(acc, ps@, j as int) == add_keys(
                                strs_view(headers@),
                                ps@,
                                j + 1 as int,
                            ));
                        }
                        j = j + 1;
                    }
                    proof {
                        assert(add_keys(strs_view(headers@), ps@, ps@.len() as int)
                            == strs_view(headers@));
                    }
                },
                _ => {
                    proof {
                        assert(props_of(features@[i as int]) =~= Seq::<(String, JsonValue)>::empty());
                        assert(add_keys(strs_view(headers@), props_of(features@[i as int]), 0)
                            == strs_view(headers@));
                    }
                },
            }
            i = i + 1;
        }
        let mut rows: Vec<Vec<String>> = Vec::new();
        let mut i2: usize = 0;
        while i2 < features.len()
            invariant
                i2 <= features@.len(),
                rows@.len() == i2,
                forall|k: int|
                    0 <= k < i2 ==> strs_view(#[trigger] rows@[k]@) == row_of(
                        features@[k],
                        strs_view(headers@),
                    ),
            decreases features@.len() - i2,
        {
            let mut row: Vec<String> = Vec::new();
            let mut j: usize = 0;
            while j < headers.len()
                invariant
                    j <= headers@.len(),
                    row@.len() == j,
                    forall|m: int|
                        0 <= m < j ==> (#[trigger] row@[m])@ == cell_text(
                            features@[i2 as int],
                            strs_view(headers@)[m],
                        ),
                decreases headers@.len() - j,
            {
                let cell: String = match json_get(&features[i2], "properties") {
                    Some(p) => match json_get(p, headers[j].as_str()) {
                        Some(v) => value_to_display(v),
                        None => "null".to_owned(),
                    },
                    None => "null".to_owned(),
                };
                proof {
                    assert(strs_view(headers@)[j as int] == headers@[j as int]@);
                }
                row.push(cell);
                j = j + 1;
            }
            rows.push(row);
            proof {
                assert(strs_view(rows@[i2 as int]@) =~= row_of(
                    features@[i2 as int],
                    strs_view(headers@),
                ));
            }
            i2 = i2 + 1;
        }
        (headers, rows)
    }
}

} // verus!
