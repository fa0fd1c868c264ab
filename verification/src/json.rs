//! The untyped JSON tree.
//!
//! This is the opaque passthrough representation: a schema region that is
//! deliberately not modeled field-by-field is carried as a [`JsonValue`] and
//! travels through every migration step unchanged.  The same type is the
//! library's boundary with the textual JSON parser and serializer, which are
//! external collaborators.

use vstd::prelude::*;

verus! {

/// An untyped JSON value: a finite tree of nulls, booleans, unsigned
/// numbers, text, arrays and objects.
///
/// Object entries keep their textual order; nothing here forbids duplicate
/// keys, since an opaque region is carried through exactly as it arrived.
#[derive(Debug, PartialEq, Eq)]
pub enum JsonValue {
    Null,
    Bool(bool),
    UInt(u64),
    Text(String),
    Arr(Vec<JsonValue>),
    Obj(Vec<(String, JsonValue)>),
}

/// The mathematical shape of a [`JsonValue`].
pub enum JsonModel {
    Null,
    Bool(bool),
    UInt(u64),
    Text(Seq<char>),
    Arr(Seq<JsonModel>),
    Obj(Seq<(Seq<char>, JsonModel)>),
}

impl JsonValue {
    /// The mathematical value of this JSON tree.
    pub open spec fn model(self) -> JsonModel
        decreases self,
    {
        match self {
            JsonValue::Null => JsonModel::Null,
            JsonValue::Bool(b) => JsonModel::Bool(b),
            JsonValue::UInt(n) => JsonModel::UInt(n),
            JsonValue::Text(s) => JsonModel::Text(s@),
            JsonValue::Arr(a) => JsonModel::Arr(model_arr(a@)),
            JsonValue::Obj(o) => JsonModel::Obj(model_obj(o@)),
        }
    }
}

/// The models of a sequence of JSON values, element by element.
pub open spec fn model_arr(s: Seq<JsonValue>) -> Seq<JsonModel>
    decreases s,
{
    if s.len() == 0 {
        Seq::empty()
    } else {
        seq![s[0].model()] + model_arr(s.subrange(1, s.len() as int))
    }
}

/// The models of an object's entries, entry by entry.
pub open spec fn model_obj(s: Seq<(String, JsonValue)>) -> Seq<(Seq<char>, JsonModel)>
    decreases s,
{
    if s.len() == 0 {
        Seq::empty()
    } else {
        seq![(s[0].0@, s[0].1.model())] + model_obj(s.subrange(1, s.len() as int))
    }
}

/// `model_arr` maps the sequence element by element.
pub proof fn lemma_model_arr(s: Seq<JsonValue>)
    ensures
        model_arr(s).len() == s.len(),
        forall|i: int| 0 <= i < s.len() ==> model_arr(s)[i] == s[i].model(),
    decreases s.len(),
{
    if s.len() > 0 {
        lemma_model_arr(s.subrange(1, s.len() as int));
    }
}

/// `model_obj` maps the entries element by element.
pub proof fn lemma_model_obj(s: Seq<(String, JsonValue)>)
    ensures
        model_obj(s).len() == s.len(),
        forall|i: int| 0 <= i < s.len() ==> model_obj(s)[i] == (s[i].0@, s[i].1.model()),
    decreases s.len(),
{
    if s.len() > 0 {
        lemma_model_obj(s.subrange(1, s.len() as int));
    }
}

/// Looks a key up in an object's entry list: the first entry with that key,
/// scanned left to right.
pub open spec fn spec_lookup(entries: Seq<(Seq<char>, JsonModel)>, key: Seq<char>) -> Option<JsonModel>
    decreases entries.len(),
{
    if entries.len() == 0 {
        None
    } else if entries[0].0 == key {
        Some(entries[0].1)
    } else {
        spec_lookup(entries.skip(1), key)
    }
}

/// Finds the first entry of `entries` whose key equals `key`.
pub fn lookup<'a>(entries: &'a Vec<(String, JsonValue)>, key: &String) -> (r: Option<&'a JsonValue>)
    ensures
        match r {
            Some(v) => spec_lookup(model_obj(entries@), key@) == Some(v.model()),
            None => spec_lookup(model_obj(entries@), key@) is None,
        },
{
    let ghost all = model_obj(entries@);
    proof {
        lemma_model_obj(entries@);
        assert(all.skip(0) =~= all);
    }
    let mut i: usize = 0;
    while i < entries.len()
        invariant
            0 <= i <= entries@.len(),
            all == model_obj(entries@),
            all.len() == entries@.len(),
            forall|j: int| 0 <= j < all.len()
                ==> all[j] == (entries@[j].0@, entries@[j].1.model()),
            spec_lookup(all, key@) == spec_lookup(all.skip(i as int), key@),
        decreases entries@.len() - i,
    {
        proof {
            lemma_lookup_skip(all, key@, i as int);
        }
        if entries[i].0 == *key {
            return Some(&entries[i].1);
        }
        i = i + 1;
    }
    None
}

/// Copies a JSON tree; the copy has the same mathematical value.
pub fn clone_json(v: &JsonValue) -> (r: JsonValue)
    ensures
        r.model() == v.model(),
    decreases *v,
{
    match v {
        JsonValue::Null => JsonValue::Null,
        JsonValue::Bool(b) => JsonValue::Bool(*b),
        JsonValue::UInt(n) => JsonValue::UInt(*n),
        JsonValue::Text(s) => JsonValue::Text(s.clone()),
        JsonValue::Arr(a) => {
            let mut r: Vec<JsonValue> = Vec::new();
            let mut i: usize = 0;
            while i < a.len()
                invariant
                    0 <= i <= a@.len(),
                    r@.len() == i,
                    forall|j: int| 0 <= j < i ==> #[trigger] r@[j].model() == a@[j].model(),
                    decreases_to!(*v => *a),
                decreases a@.len() - i,
            {
                proof {
                    assert(decreases_to!(*a => a@[i as int]));
                }
                r.push(clone_json(&a[i]));
                i = i + 1;
            }
            proof {
                lemma_model_arr(a@);
                lemma_model_arr(r@);
                assert(model_arr(r@) =~= model_arr(a@));
            }
            JsonValue::Arr(r)
        },
        JsonValue::Obj(o) => {
            let mut r: Vec<(String, JsonValue)> = Vec::new();
            let mut i: usize = 0;
            while i < o.len()
                invariant
                    0 <= i <= o@.len(),
                    r@.len() == i,
                    forall|j: int| 0 <= j < i
                        ==> #[trigger] r@[j].0@ == o@[j].0@ && r@[j].1.model() == o@[j].1.model(),
                    decreases_to!(*v => *o),
                decreases o@.len() - i,
            {
                proof {
                    assert(decreases_to!(*o => o@[i as int]));
                    assert(decreases_to!(o@[i as int] => o@[i as int].1));
                }
                let copied = clone_json(&o[i].1);
                r.push((o[i].0.clone(), copied));
                i = i + 1;
            }
            proof {
                lemma_model_obj(o@);
                lemma_model_obj(r@);
                assert(model_obj(r@) =~= model_obj(o@));
            }
            JsonValue::Obj(r)
        },
    }
}

/// Scanning from position `i`: either the entry at `i` matches, or the scan
/// continues at `i + 1`.
proof fn lemma_lookup_skip(entries: Seq<(Seq<char>, JsonModel)>, key: Seq<char>, i: int)
    requires
        0 <= i < entries.len(),
    ensures
        entries[i].0 == key ==> spec_lookup(entries.skip(i), key) == Some(entries[i].1),
        entries[i].0 != key ==> spec_lookup(entries.skip(i), key) == spec_lookup(entries.skip(i + 1), key),
{
    let s = entries.skip(i);
    assert(s[0] == entries[i]);
    assert(s.skip(1) =~= entries.skip(i + 1));
}

} // verus!
