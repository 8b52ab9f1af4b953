//! A JSON document model and the deep merge used by template inheritance.
//!
//! Numbers are held as decimal text. A number read from JSON text holds the
//! text serde_json gives it: an integer exactly, any other number in its
//! shortest form as an `f64` (so `1.50` becomes `1.5`). Object entries form a
//! map: in a well-formed document no key occurs twice, and a lookup finds the
//! last entry with the key.

use vstd::prelude::*;
use vstd::string::StringExecFns;

verus! {

broadcast use vstd::std_specs::vec::axiom_vec_decreases_to_view;

/// serde_json's document type, carried only inside the JSON reader below.
#[verifier::external_type_specification]
#[verifier::external_body]
pub struct ExSerdeJsonValue(serde_json::Value);

/// What reading `text` as JSON gives: the document, or the reader's error
/// message (serde_json's message for the first error, with its line and
/// column). It depends on the text alone.
pub uninterp spec fn json_text(text: Seq<char>) -> Result<JValue, Seq<char>>;

/// Reads `text` as one JSON document with `serde_json::from_str`.
///
/// Trusted: the result, document or error message, is `json_text` of the
/// text; a document read this way has unique keys in every object, since
/// serde_json keeps object entries in a map.
#[verifier::external_body]
pub(crate) fn parse_json_text(text: &str) -> (r: Result<JsonValue, String>)
    ensures
        json_text(text@) == (match r {
            Ok(v) => Ok::<JValue, Seq<char>>(v.jv()),
            Err(m) => Err::<JValue, Seq<char>>(m@),
        }),
        r matches Ok(v) ==> json_wf(v),
{
    match serde_json::from_str::<serde_json::Value>(text) {
        Ok(v) => Ok(document_of(&v)),
        Err(e) => Err(e.to_string()),
    }
}

/// Converts a serde_json document into the library's, one node for one
/// node, keeping each number's text and each object's entries; it serves
/// `parse_json_text` alone, whose contract covers what it returns.
#[verifier::external_body]
fn document_of(v: &serde_json::Value) -> JsonValue {
    match v {
        serde_json::Value::Null => JsonValue::Null,
        serde_json::Value::Bool(b) => JsonValue::Bool(*b),
        serde_json::Value::Number(n) => JsonValue::Number(n.to_string()),
        serde_json::Value::String(t) => JsonValue::Str(t.clone()),
        serde_json::Value::Array(a) => JsonValue::Array(a.iter().map(document_of).collect()),
        serde_json::Value::Object(m) => JsonValue::Object(m.iter().map(|(k, x)| (k.clone(), document_of(x))).collect()),
    }
}

/// A JSON value held by the library.
#[derive(Debug, PartialEq)]
pub enum JsonValue {
    Null,
    Bool(bool),
    /// A number, as decimal text.
    Number(String),
    Str(String),
    Array(Vec<JsonValue>),
    /// Object entries; keys are unique in a well-formed document.
    Object(Vec<(String, JsonValue)>),
}

/// The mathematical value of a JSON document.
pub enum JValue {
    Null,
    Bool(bool),
    Number(Seq<char>),
    Str(Seq<char>),
    Array(Seq<JValue>),
    Object(Map<Seq<char>, JValue>),
}

/// The key that names a template.
pub open spec fn extends_key() -> Seq<char> {
    "extends"@
}

impl JsonValue {
    /// The mathematical value of this document.
    pub open spec fn jv(self) -> JValue
        decreases self,
    {
        match self {
            JsonValue::Null => JValue::Null,
            JsonValue::Bool(b) => JValue::Bool(b),
            JsonValue::Number(s) => JValue::Number(s@),
            JsonValue::Str(s) => JValue::Str(s@),
            JsonValue::Array(a) => JValue::Array(arr_view(a@)),
            JsonValue::Object(o) => JValue::Object(obj_view(o@)),
        }
    }
}

/// The values of an array's elements.
pub open spec fn arr_view(s: Seq<JsonValue>) -> Seq<JValue>
    decreases s,
{
    if s.len() == 0 {
        Seq::empty()
    } else {
        arr_view(s.drop_last()).push(s.last().jv())
    }
}

/// The map of an object's entries; a later entry overrides an earlier one.
pub open spec fn obj_view(s: Seq<(String, JsonValue)>) -> Map<Seq<char>, JValue>
    decreases s,
{
    if s.len() == 0 {
        Map::empty()
    } else {
        obj_view(s.drop_last()).insert(s.last().0@, s.last().1.jv())
    }
}

/// No key occurs twice among the entries.
pub open spec fn keys_unique(s: Seq<(String, JsonValue)>) -> bool {
    forall|i: int, j: int| 0 <= i < j < s.len() ==> s[i].0@ != s[j].0@
}

/// Every object in the document, at any depth, has unique keys.
pub open spec fn json_wf(v: JsonValue) -> bool
    decreases v,
{
    match v {
        JsonValue::Array(a) => arr_wf(a@),
        JsonValue::Object(o) => keys_unique(o@) && entries_wf(o@),
        _ => true,
    }
}

pub open spec fn arr_wf(s: Seq<JsonValue>) -> bool
    decreases s,
{
    if s.len() == 0 {
        true
    } else {
        arr_wf(s.drop_last()) && json_wf(s.last())
    }
}

pub open spec fn entries_wf(s: Seq<(String, JsonValue)>) -> bool
    decreases s,
{
    if s.len() == 0 {
        true
    } else {
        entries_wf(s.drop_last()) && json_wf(s.last().1)
    }
}

/// Deep merge of two values: objects merge key by key, anything else is
/// replaced by the overlay.
///
/// For objects, an overlay key other than `"extends"` with a `null` value
/// removes the key; with another value it replaces the base value, merging
/// recursively when both are objects. `"extends"` in the overlay is ignored;
/// base keys absent from the overlay are kept.
pub open spec fn spec_merge(base: JValue, overlay: JValue) -> JValue
    decreases overlay,
{
    match (base, overlay) {
        (JValue::Object(bm), JValue::Object(om)) => JValue::Object(
            Map::new(
                |k: Seq<char>|
                    if om.contains_key(k) && k != extends_key() {
                        !(om[k] is Null)
                    } else {
                        bm.contains_key(k)
                    },
                |k: Seq<char>|
                    if om.contains_key(k) && k != extends_key() {
                        if bm.contains_key(k) && bm[k] is Object && om[k] is Object {
                            spec_merge(bm[k], om[k])
                        } else {
                            om[k]
                        }
                    } else {
                        bm[k]
                    },
            ),
        ),
        _ => overlay,
    }
}

/// No object in the document, at any depth through objects, has a `null`
/// field.
pub open spec fn no_null_fields(v: JValue) -> bool
    decreases v,
{
    match v {
        JValue::Object(m) => forall|k: Seq<char>|
            #[trigger] m.contains_key(k) ==> !(m[k] is Null) && no_null_fields(m[k]),
        _ => true,
    }
}

proof fn lemma_merge_self(o: JValue)
    requires
        no_null_fields(o),
    ensures
        spec_merge(o, o) == o,
    decreases o,
{
    if let JValue::Object(om) = o {
        assert forall|k: Seq<char>| #[trigger] om.contains_key(k) && om[k] is Object implies spec_merge(om[k], om[k])
            == om[k] by {
            lemma_merge_self(om[k]);
        }
        assert(spec_merge(o, o)->Object_0 =~= om);
    }
}

/// Law: merging an empty object onto an object changes nothing.
pub proof fn lemma_merge_empty_overlay(base: JValue)
    requires
        base is Object,
    ensures
        spec_merge(base, JValue::Object(Map::empty())) == base,
{
    assert(spec_merge(base, JValue::Object(Map::empty()))->Object_0 =~= base->Object_0);
}

/// Law: merging the same overlay a second time changes nothing, when no
/// object of the overlay has a `null` field.
pub proof fn lemma_merge_idempotent(base: JValue, overlay: JValue)
    requires
        no_null_fields(overlay),
    ensures
        spec_merge(spec_merge(base, overlay), overlay) == spec_merge(base, overlay),
    decreases overlay,
{
    match (base, overlay) {
        (JValue::Object(bm), JValue::Object(om)) => {
            let m1 = merged_map(bm, om);
            let m2 = merged_map(m1, om);
            assert forall|k: Seq<char>| #[trigger] m2.contains_key(k) == m1.contains_key(k) && (m1.contains_key(k)
                ==> m2[k] == m1[k]) by {
                lemma_merge_object_fields(bm, om, k);
                lemma_merge_object_fields(m1, om, k);
                if om.contains_key(k) && k != extends_key() && om[k] is Object {
                    if bm.contains_key(k) && bm[k] is Object {
                        lemma_merge_idempotent(bm[k], om[k]);
                    } else {
                        lemma_merge_self(om[k]);
                    }
                }
            }
            assert(m2 =~= m1);
        },
        (_, JValue::Object(om)) => {
            lemma_merge_self(overlay);
        },
        _ => {},
    }
}

/// The merged map of two objects.
pub open spec fn merged_map(bm: Map<Seq<char>, JValue>, om: Map<Seq<char>, JValue>) -> Map<
    Seq<char>,
    JValue,
> {
    spec_merge(JValue::Object(bm), JValue::Object(om))->Object_0
}

/// Whether two strings are equal.
pub fn str_eq(a: &String, b: &String) -> (r: bool)
    ensures
        r == (a@ == b@),
{
    *a == *b
}

/// Whether `s` is the literal `lit`.
pub fn key_is(s: &String, lit: &str) -> (r: bool)
    ensures
        r == (s@ == lit@),
{
    let l = String::from_str(lit);
    *s == l
}

impl JsonValue {
    /// Looks up `key` in an object; `None` for non-objects and missing keys.
    pub fn get(&self, key: &String) -> (r: Option<&JsonValue>)
        ensures
            match r {
                Some(v) => self is Object && obj_view(self->Object_0@).contains_key(key@)
                    && obj_view(self->Object_0@)[key@] == v.jv(),
                None => !(self is Object) || !obj_view(self->Object_0@).contains_key(key@),
            },
    {
        match self {
            JsonValue::Object(entries) => {
                match find_last_key(entries, key) {
                    Some(i) => {
                        proof {
                            lemma_obj_view_last(entries@, i as int);
                        }
                        Some(&entries[i].1)
                    },
                    None => {
                        proof {
                            lemma_obj_view_absent(entries@, key@);
                        }
                        None
                    },
                }
            },
            _ => None,
        }
    }

    /// Looks up a literal key.
    pub fn get_lit(&self, key: &str) -> (r: Option<&JsonValue>)
        ensures
            match r {
                Some(v) => self is Object && obj_view(self->Object_0@).contains_key(key@)
                    && obj_view(self->Object_0@)[key@] == v.jv(),
                None => !(self is Object) || !obj_view(self->Object_0@).contains_key(key@),
            },
    {
        let k = String::from_str(key);
        self.get(&k)
    }

    /// The string content, for strings.
    pub fn as_str(&self) -> (r: Option<&String>)
        ensures
            match r {
                Some(s) => self is Str && self->Str_0 == *s,
                None => !(self is Str),
            },
    {
        match self {
            JsonValue::Str(s) => Some(s),
            _ => None,
        }
    }
}

/// Index of the last entry with `key`.
pub fn find_last_key(entries: &Vec<(String, JsonValue)>, key: &String) -> (r: Option<usize>)
    ensures
        match r {
            Some(i) => i < entries@.len() && entries@[i as int].0@ == key@
                && forall|j: int| i < j < entries@.len() ==> entries@[j].0@ != key@,
            None => forall|j: int| 0 <= j < entries@.len() ==> entries@[j].0@ != key@,
        },
{
    let mut i = entries.len();
    while i > 0
        invariant
            i <= entries@.len(),
            forall|j: int| i <= j < entries@.len() ==> entries@[j].0@ != key@,
        decreases i,
    {
        i = i - 1;
        if str_eq(&entries[i].0, key) {
            return Some(i);
        }
    }
    None
}

/// The entry at `i` gives the value of its key when no later entry has that key.
pub proof fn lemma_obj_view_last(s: Seq<(String, JsonValue)>, i: int)
    requires
        0 <= i < s.len(),
        forall|j: int| i < j < s.len() ==> s[j].0@ != s[i].0@,
    ensures
        obj_view(s).contains_key(s[i].0@),
        obj_view(s)[s[i].0@] == s[i].1.jv(),
    decreases s.len(),
{
    if i < s.len() - 1 {
        lemma_obj_view_last(s.drop_last(), i);
    }
}

/// A key no entry has is absent from the map.
pub proof fn lemma_obj_view_absent(s: Seq<(String, JsonValue)>, k: Seq<char>)
    requires
        forall|j: int| 0 <= j < s.len() ==> s[j].0@ != k,
    ensures
        !obj_view(s).contains_key(k),
    decreases s.len(),
{
    if s.len() > 0 {
        lemma_obj_view_absent(s.drop_last(), k);
    }
}

/// A key is present exactly when some entry has it.
pub proof fn lemma_obj_view_dom(s: Seq<(String, JsonValue)>, k: Seq<char>)
    ensures
        obj_view(s).contains_key(k) <==> exists|j: int| 0 <= j < s.len() && s[j].0@ == k,
    decreases s.len(),
{
    if s.len() > 0 {
        lemma_obj_view_dom(s.drop_last(), k);
        if obj_view(s.drop_last()).contains_key(k) {
            let j = choose|j: int| 0 <= j < s.drop_last().len() && s.drop_last()[j].0@ == k;
            assert(s[j].0@ == k);
        }
        if exists|j: int| 0 <= j < s.len() && s[j].0@ == k {
            let j = choose|j: int| 0 <= j < s.len() && s[j].0@ == k;
            if j < s.len() - 1 {
                assert(s.drop_last()[j].0@ == k);
            }
        }
    }
}

/// Removing the only entry with a key removes the key from the map.
pub proof fn lemma_obj_view_remove(s: Seq<(String, JsonValue)>, i: int)
    requires
        0 <= i < s.len(),
        keys_unique(s),
    ensures
        obj_view(s.remove(i)) =~= obj_view(s).remove(s[i].0@),
        keys_unique(s.remove(i)),
    decreases s.len(),
{
    let k = s[i].0@;
    if i == s.len() - 1 {
        assert(s.remove(i) =~= s.drop_last());
        lemma_obj_view_absent(s.drop_last(), k);
    } else {
        lemma_obj_view_remove(s.drop_last(), i);
        assert(s.remove(i).drop_last() =~= s.drop_last().remove(i));
        assert(s.remove(i).last() == s.last());
    }
    assert forall|a: int, b: int| 0 <= a < b < s.remove(i).len() implies
        s.remove(i)[a].0@ != s.remove(i)[b].0@ by {
        let a2 = if a < i { a } else { a + 1 };
        let b2 = if b < i { b } else { b + 1 };
        assert(s.remove(i)[a] == s[a2]);
        assert(s.remove(i)[b] == s[b2]);
    }
}

/// Every entry of a well-formed entry list is well-formed.
pub proof fn lemma_entries_wf_at(s: Seq<(String, JsonValue)>, i: int)
    requires
        entries_wf(s),
        0 <= i < s.len(),
    ensures
        json_wf(s[i].1),
    decreases s.len(),
{
    if i < s.len() - 1 {
        lemma_entries_wf_at(s.drop_last(), i);
    }
}

/// An entry list is well-formed when each entry is.
pub proof fn lemma_entries_wf_from(s: Seq<(String, JsonValue)>)
    requires
        forall|i: int| 0 <= i < s.len() ==> json_wf(#[trigger] s[i].1),
    ensures
        entries_wf(s),
    decreases s.len(),
{
    if s.len() > 0 {
        lemma_entries_wf_from(s.drop_last());
    }
}

/// Deep-merges `overlay` into `base`: the template-inheritance merge.
///
/// Objects are merged field by field (recursively where both sides are
/// objects); arrays and scalars of the overlay replace the base; an overlay
/// `null` removes the base field; an overlay `"extends"` field is dropped.
pub fn deep_merge_json(base: JsonValue, overlay: JsonValue) -> (r: JsonValue)
    requires
        json_wf(base),
        json_wf(overlay),
    ensures
        r.jv() == spec_merge(base.jv(), overlay.jv()),
        json_wf(r),
    decreases overlay,
{
    let ghost overlay_g = overlay;
    let ghost base_g = base;
    match (base, overlay) {
        (JsonValue::Object(b0), JsonValue::Object(o)) => {
            let ghost bm = obj_view(b0@);
            let ghost os = o@;
            let mut b = b0;
            let mut rest = o;
            let ghost mut i: int = 0;
            proof {
                assert(obj_view(os.take(0)) =~= Map::<Seq<char>, JValue>::empty());
                assert(obj_view(b@) =~= merged_map(bm, obj_view(os.take(0))));
            }
            while rest.len() > 0
                invariant
                    0 <= i <= os.len(),
                    rest@ == os.skip(i),
                    keys_unique(os),
                    entries_wf(os),
                    keys_unique(b@),
                    entries_wf(b@),
                    obj_view(b@) =~= merged_map(bm, obj_view(os.take(i))),
                    overlay_g == JsonValue::Object(o),
                    overlay_g == overlay,
                    o@ == os,
                decreases rest@.len(),
            {
                let ghost prefix = obj_view(os.take(i));
                let (key, value) = rest.remove(0);
                proof {
                    assert(os[i] == (key, value));
                    assert(os.take(i + 1).drop_last() =~= os.take(i));
                    assert(os.take(i + 1).last() == os[i]);
                    assert(obj_view(os.take(i + 1)) == prefix.insert(key@, value.jv()));
                    lemma_obj_view_dom(os.take(i), key@);
                    assert(!prefix.contains_key(key@));
                    lemma_entries_wf_at(os, i);
                    assert(decreases_to!(overlay_g => overlay_g->Object_0));
                    assert(decreases_to!(overlay_g->Object_0 => overlay_g->Object_0@));
                    assert(decreases_to!(overlay_g->Object_0@ => overlay_g->Object_0@[i]));
                    assert(decreases_to!(overlay_g->Object_0@[i] => overlay_g->Object_0@[i].1));
                    assert(overlay_g->Object_0@[i].1 == value);
                    assert(decreases_to!(overlay => value));
                }
                if key_is(&key, "extends") {
                    proof {
                        assert(merged_map(bm, prefix.insert(key@, value.jv())) =~= merged_map(bm, prefix));
                    }
                } else {
                    let is_null = match value {
                        JsonValue::Null => true,
                        _ => false,
                    };
                    let found = find_last_key(&b, &key);
                    if is_null {
                        match found {
                            Some(j) => {
                                let ghost bb = b@;
                                let _old = b.remove(j);
                                proof {
                                    lemma_obj_view_remove(bb, j as int);
                                    lemma_entries_wf_after_remove(bb, j as int);
                                }
                            },
                            None => {
                                proof {
                                    lemma_obj_view_absent(b@, key@);
                                }
                            },
                        }
                        proof {
                            assert(merged_map(bm, prefix.insert(key@, value.jv())) =~= merged_map(bm, prefix).remove(key@));
                        }
                    } else {
                        match found {
                            Some(j) => {
                                let ghost bb = b@;
                                let (k2, old_v) = b.remove(j);
                                proof {
                                    lemma_obj_view_last(bb, j as int);
                                    lemma_obj_view_remove(bb, j as int);
                                    lemma_entries_wf_at(bb, j as int);
                                    lemma_entries_wf_after_remove(bb, j as int);
                                }
                                let both_objects = old_v.is_object_exec() && value.is_object_exec();
                                let new_v = if both_objects {
                                    deep_merge_json(old_v, value)
                                } else {
                                    value
                                };
                                let ghost b_mid = b@;
                                b.push((k2, new_v));
                                proof {
                                    lemma_obj_view_absent(b_mid, key@);
                                    lemma_obj_view_dom(b_mid, key@);
                                    assert(b@.drop_last() == b_mid);
                                    assert(entries_wf(b@));
                                    assert(merged_map(bm, prefix.insert(key@, value.jv())) =~= merged_map(bm, prefix).insert(key@, new_v.jv()));
                                }
                            },
                            None => {
                                let ghost b_mid = b@;
                                proof {
                                    lemma_obj_view_absent(b@, key@);
                                }
                                b.push((key, value));
                                proof {
                                    assert(b@.drop_last() == b_mid);
                                    assert(merged_map(bm, prefix.insert(key@, os[i].1.jv())) =~= merged_map(bm, prefix).insert(key@, os[i].1.jv()));
                                }
                            },
                        }
                    }
                }
                proof {
                    i = i + 1;
                    assert(rest@ =~= os.skip(i));
                }
            }
            proof {
                assert(os.take(i) =~= os);
            }
            JsonValue::Object(b)
        },
        (_, ov) => ov,
    }
}

impl JsonValue {
    /// Whether this value is an object.
    pub fn is_object_exec(&self) -> (r: bool)
        ensures
            r == (self is Object),
    {
        match self {
            JsonValue::Object(_) => true,
            _ => false,
        }
    }
}

/// Removing an entry keeps the others well-formed.
pub proof fn lemma_entries_wf_after_remove(s: Seq<(String, JsonValue)>, i: int)
    requires
        entries_wf(s),
        0 <= i < s.len(),
    ensures
        entries_wf(s.remove(i)),
{
    assert forall|j: int| 0 <= j < s.remove(i).len() implies json_wf(#[trigger] s.remove(i)[j].1) by {
        let j2 = if j < i { j } else { j + 1 };
        assert(s.remove(i)[j] == s[j2]);
        lemma_entries_wf_at(s, j2);
    }
    lemma_entries_wf_from(s.remove(i));
}

/// Law: the merge replaces anything that is not an object on both sides by the overlay.
pub proof fn lemma_merge_replaces_non_objects(base: JValue, overlay: JValue)
    requires
        !(base is Object) || !(overlay is Object),
    ensures
        spec_merge(base, overlay) == overlay,
{
}

/// Law: merging objects keeps base-only keys, lets the overlay win elsewhere,
/// deletes keys the overlay sets to `null`, and never copies the overlay's
/// `"extends"` field.
pub proof fn lemma_merge_object_fields(
    bm: Map<Seq<char>, JValue>,
    om: Map<Seq<char>, JValue>,
    k: Seq<char>,
)
    ensures
        ({
            let m = merged_map(bm, om);
            &&& (!om.contains_key(k) || k == extends_key()) ==> (m.contains_key(k) == bm.contains_key(k))
                && (bm.contains_key(k) ==> m[k] == bm[k])
            &&& (om.contains_key(k) && k != extends_key() && om[k] is Null) ==> !m.contains_key(k)
            &&& (om.contains_key(k) && k != extends_key() && !(om[k] is Null) && !(om[k] is Object))
                ==> m.contains_key(k) && m[k] == om[k]
            &&& (om.contains_key(k) && k != extends_key() && om[k] is Object && !(bm.contains_key(k) && bm[k] is Object))
                ==> m.contains_key(k) && m[k] == om[k]
            &&& (om.contains_key(k) && k != extends_key() && om[k] is Object && bm.contains_key(k) && bm[k] is Object)
                ==> m.contains_key(k) && m[k] == spec_merge(bm[k], om[k])
        }),
{
}



/// The values of an array's elements, element by element.
pub proof fn lemma_arr_view_index(s: Seq<JsonValue>)
    ensures
        arr_view(s).len() == s.len(),
        forall|i: int| 0 <= i < s.len() ==> #[trigger] arr_view(s)[i] == s[i].jv(),
    decreases s.len(),
{
    if s.len() > 0 {
        lemma_arr_view_index(s.drop_last());
        assert forall|i: int| 0 <= i < s.len() implies #[trigger] arr_view(s)[i] == s[i].jv() by {
            if i < s.len() - 1 {
                assert(arr_view(s.drop_last())[i] == s.drop_last()[i].jv());
            }
        }
    }
}

} // verus!
