//! Decoding inverts encoding: a document that is expressible at a version
//! comes back unchanged from its canonical encoding at that version.
//!
//! Together with the chain composition on models this yields the
//! composability of whole runs: migrating to a stopover version, writing
//! the document out, reading it back and migrating on gives the same
//! result as one direct run.

use vstd::prelude::*;
use crate::codec::{
    dec_type, dec_types, dec_item, dec_items, dec_tags, dec_crate, enc_type, enc_types,
    enc_item, enc_items, enc_tags, enc_crate, has_key, key_primitive, key_slice, key_named,
    lemma_enc_items,
};
use crate::json::{JsonModel, spec_lookup};
use crate::model::{
    TypeModel, ItemModel, CrateModel, type_ok_at, types_ok_at, items_ok_at, crate_ok_at,
    spec_chain, lemma_chain_compose, lemma_chain_ok,
};
use crate::pipeline::spec_detect;
use crate::strmap::distinct_keys;
use crate::version::version_supported;

verus! {

/// The canonical keys are pairwise distinct character sequences.
proof fn key_facts()
    ensures
        "primitive"@ != "slice"@,
        "primitive"@ != "named"@,
        "primitive"@ != "infer"@,
        "slice"@ != "named"@,
        "slice"@ != "infer"@,
        "named"@ != "infer"@,
        "name"@ != "args"@,
        "name"@ != "docs"@,
        "name"@ != "type"@,
        "docs"@ != "type"@,
        "schema_version"@ != "title"@,
        "schema_version"@ != "name"@,
        "schema_version"@ != "tags"@,
        "schema_version"@ != "items"@,
        "schema_version"@ != "extra"@,
        "schema_version"@ != "license"@,
        "title"@ != "tags"@,
        "title"@ != "items"@,
        "title"@ != "extra"@,
        "title"@ != "license"@,
        "name"@ != "tags"@,
        "name"@ != "items"@,
        "name"@ != "extra"@,
        "name"@ != "license"@,
        "tags"@ != "items"@,
        "tags"@ != "extra"@,
        "tags"@ != "license"@,
        "items"@ != "extra"@,
        "items"@ != "license"@,
        "extra"@ != "license"@,
{
    reveal_strlit("primitive");
    reveal_strlit("slice");
    reveal_strlit("named");
    reveal_strlit("infer");
    reveal_strlit("name");
    reveal_strlit("args");
    reveal_strlit("docs");
    reveal_strlit("type");
    reveal_strlit("schema_version");
    reveal_strlit("title");
    reveal_strlit("tags");
    reveal_strlit("items");
    reveal_strlit("extra");
    reveal_strlit("license");
    assert("primitive"@.len() == 9);
    assert("slice"@.len() == 5);
    assert("named"@.len() == 5);
    assert("infer"@.len() == 5);
    assert("name"@.len() == 4);
    assert("args"@.len() == 4);
    assert("docs"@.len() == 4);
    assert("type"@.len() == 4);
    assert("schema_version"@.len() == 14);
    assert("title"@.len() == 5);
    assert("tags"@.len() == 4);
    assert("items"@.len() == 5);
    assert("extra"@.len() == 5);
    assert("license"@.len() == 7);
    assert("slice"@[0] == 's');
    assert("named"@[0] == 'n');
    assert("infer"@[0] == 'i');
    assert("name"@[0] == 'n');
    assert("args"@[0] == 'a');
    assert("docs"@[0] == 'd');
    assert("type"@[0] == 't');
    assert("title"@[0] == 't');
    assert("tags"@[0] == 't');
    assert("items"@[0] == 'i');
    assert("extra"@[0] == 'e');
}

/// Looking a key up in a concatenation: the left part is searched first.
proof fn lemma_lookup_append(a: Seq<(Seq<char>, JsonModel)>, b: Seq<(Seq<char>, JsonModel)>, k: Seq<char>)
    ensures
        spec_lookup(a + b, k) == if has_key(a, k) {
            spec_lookup(a, k)
        } else {
            spec_lookup(b, k)
        },
    decreases a.len(),
{
    if a.len() == 0 {
        assert(a + b =~= b);
        assert(!has_key(a, k));
    } else {
        assert((a + b)[0] == a[0]);
        assert((a + b).skip(1) =~= a.skip(1) + b);
        assert(a.skip(1) =~= a.subrange(1, a.len() as int));
        lemma_lookup_append(a.skip(1), b, k);
        if a[0].0 == k {
        } else {
            assert(has_key(a, k) <==> has_key(a.skip(1), k)) by {
                if has_key(a, k) {
                    let i = choose|i: int| 0 <= i < a.len() && a[i].0 == k;
                    assert(a.skip(1)[i - 1] == a[i]);
                }
                if has_key(a.skip(1), k) {
                    let i = choose|i: int| 0 <= i < a.skip(1).len() && a.skip(1)[i].0 == k;
                    assert(a[i + 1].0 == k);
                }
            }
        }
    }
}

/// A singleton entry list: the lookup hits or misses at once.
proof fn lemma_lookup_single(k0: Seq<char>, v0: JsonModel, k: Seq<char>)
    ensures
        spec_lookup(seq![(k0, v0)], k) == if k0 == k {
            Option::Some(v0)
        } else {
            Option::<JsonModel>::None
        },
{
    reveal_with_fuel(spec_lookup, 2);
    let s: Seq<(Seq<char>, JsonModel)> = seq![(k0, v0)];
    assert(s[0] == (k0, v0));
    assert(s.skip(1) =~= Seq::<(Seq<char>, JsonModel)>::empty());
}

/// Decoding inverts encoding for a type expression that exists at `v`.
pub proof fn lemma_rt_type(t: TypeModel, v: int)
    requires
        type_ok_at(t, v),
    ensures
        dec_type(enc_type(t), v) == Option::Some(t),
    decreases t,
{
    key_facts();
    match t {
        TypeModel::Primitive(_) => {},
        TypeModel::Slice(e) => {
            lemma_rt_type(*e, v);
        },
        TypeModel::Named(n, args) => {
            lemma_rt_types(args, v);
        },
        TypeModel::Infer => {},
    }
}

/// Decoding inverts encoding for a sequence of type expressions.
pub proof fn lemma_rt_types(ts: Seq<TypeModel>, v: int)
    requires
        types_ok_at(ts, v),
    ensures
        dec_types(enc_types(ts), v) == Option::Some(ts),
    decreases ts,
{
    if ts.len() > 0 {
        lemma_rt_type(ts[0], v);
        lemma_rt_types(ts.subrange(1, ts.len() as int), v);
        let es = enc_types(ts);
        assert(es[0] == enc_type(ts[0]));
        assert(es.subrange(1, es.len() as int) =~= enc_types(ts.subrange(1, ts.len() as int)));
        assert(seq![ts[0]] + ts.subrange(1, ts.len() as int) =~= ts);
    }
}

/// The first of two optional results.
pub open spec fn first_of(a: Option<JsonModel>, b: Option<JsonModel>) -> Option<JsonModel> {
    if a is Some {
        a
    } else {
        b
    }
}

/// A key is in a concatenation exactly when it is in one of the parts.
proof fn lemma_has_key_append(a: Seq<(Seq<char>, JsonModel)>, b: Seq<(Seq<char>, JsonModel)>, k: Seq<char>)
    ensures
        has_key(a + b, k) <==> has_key(a, k) || has_key(b, k),
{
    if has_key(a + b, k) {
        let i = choose|i: int| 0 <= i < (a + b).len() && (a + b)[i].0 == k;
        if i < a.len() {
            assert(a[i].0 == k);
        } else {
            assert(b[i - a.len()].0 == k);
        }
    }
    if has_key(a, k) {
        let i = choose|i: int| 0 <= i < a.len() && a[i].0 == k;
        assert((a + b)[i].0 == k);
    }
    if has_key(b, k) {
        let i = choose|i: int| 0 <= i < b.len() && b[i].0 == k;
        assert((a + b)[a.len() + i].0 == k);
    }
}

/// Decoding inverts encoding for tags.
pub proof fn lemma_rt_tags(ts: Seq<Seq<char>>)
    ensures
        dec_tags(enc_tags(ts)) == Option::Some(ts),
    decreases ts,
{
    if ts.len() > 0 {
        lemma_rt_tags(ts.subrange(1, ts.len() as int));
        let es = enc_tags(ts);
        assert(es[0] == JsonModel::Text(ts[0]));
        assert(es.subrange(1, es.len() as int) =~= enc_tags(ts.subrange(1, ts.len() as int)));
        assert(seq![ts[0]] + ts.subrange(1, ts.len() as int) =~= ts);
    }
}

/// Decoding inverts encoding for one declaration.
pub proof fn lemma_rt_item(it: ItemModel, v: int)
    requires
        type_ok_at(it.ty, v),
    ensures
        dec_item(enc_item(it), v) == Option::Some(it),
{
    key_facts();
    lemma_rt_type(it.ty, v);
    let e1: Seq<(Seq<char>, JsonModel)> = seq![("name"@, JsonModel::Text(it.name))];
    let e2: Seq<(Seq<char>, JsonModel)> = match it.docs {
        Option::Some(d) => seq![("docs"@, JsonModel::Text(d))],
        Option::None => Seq::empty(),
    };
    let e3: Seq<(Seq<char>, JsonModel)> = seq![("type"@, enc_type(it.ty))];
    let es = e1 + e2 + e3;
    assert(enc_item(it) == JsonModel::Obj(es));
    reveal_with_fuel(spec_lookup, 2);
    assert(e1[0] == ("name"@, JsonModel::Text(it.name)));
    assert(e3[0] == ("type"@, enc_type(it.ty)));
    lemma_lookup_append(e1 + e2, e3, "name"@);
    lemma_lookup_append(e1, e2, "name"@);
    lemma_has_key_append(e1, e2, "name"@);
    lemma_lookup_single("name"@, JsonModel::Text(it.name), "name"@);
    assert(spec_lookup(es, "name"@) == Option::Some(JsonModel::Text(it.name)));
    lemma_lookup_append(e1 + e2, e3, "docs"@);
    lemma_lookup_append(e1, e2, "docs"@);
    lemma_has_key_append(e1, e2, "docs"@);
    lemma_lookup_single("name"@, JsonModel::Text(it.name), "docs"@);
    lemma_lookup_single("type"@, enc_type(it.ty), "docs"@);
    match it.docs {
        Option::Some(d) => {
            lemma_lookup_single("docs"@, JsonModel::Text(d), "docs"@);
            assert(spec_lookup(es, "docs"@) == Option::Some(JsonModel::Text(d)));
        },
        Option::None => {
            assert(spec_lookup(es, "docs"@) is None);
        },
    }
    lemma_lookup_append(e1 + e2, e3, "type"@);
    lemma_lookup_append(e1, e2, "type"@);
    lemma_has_key_append(e1, e2, "type"@);
    lemma_lookup_single("name"@, JsonModel::Text(it.name), "type"@);
    lemma_lookup_single("type"@, enc_type(it.ty), "type"@);
    match it.docs {
        Option::Some(d) => {
            lemma_lookup_single("docs"@, JsonModel::Text(d), "type"@);
        },
        Option::None => {},
    }
    assert(spec_lookup(es, "type"@) == Option::Some(enc_type(it.ty)));
    assert(dec_item(enc_item(it), v) matches Option::Some(m) && m =~= it);
}

/// Decoding inverts encoding for the declaration entries.
pub proof fn lemma_rt_items(s: Seq<(Seq<char>, ItemModel)>, v: int)
    requires
        distinct_keys(s),
        items_ok_at(s, v),
    ensures
        dec_items(enc_items(s), v) == Option::Some(s),
    decreases s,
{
    if s.len() > 0 {
        let tail = s.subrange(1, s.len() as int);
        assert(distinct_keys(tail));
        assert(items_ok_at(tail, v)) by {
            assert(forall|i: int| 0 <= i < tail.len() ==> tail[i] == s[i + 1]);
        }
        lemma_rt_item(s[0].1, v);
        lemma_rt_items(tail, v);
        let es = enc_items(s);
        lemma_enc_items(s);
        lemma_enc_items(tail);
        assert(es[0] == (s[0].0, enc_item(s[0].1)));
        assert(es.subrange(1, es.len() as int) =~= enc_items(tail));
        assert(!has_key(enc_items(tail), s[0].0)) by {
            if has_key(enc_items(tail), s[0].0) {
                let i = choose|i: int|
                    0 <= i < enc_items(tail).len() && enc_items(tail)[i].0 == s[0].0;
                assert(tail[i].0 == s[0].0);
                assert(s[i + 1].0 == s[0].0);
            }
        }
        assert(seq![(s[0].0, s[0].1)] + tail =~= s);
    }
}

/// Decoding inverts encoding for a whole document expressible at `v`.
pub proof fn lemma_rt_crate(c: CrateModel, v: int)
    requires
        crate_ok_at(c, v),
        version_supported(v),
    ensures
        dec_crate(enc_crate(c, v), v) == Option::Some(c),
        spec_detect(enc_crate(c, v)) == Option::Some(v as u64),
{
    key_facts();
    reveal_with_fuel(spec_lookup, 2);
    let name_key: Seq<char> = if v == 1 { "title"@ } else { "name"@ };
    let e1: Seq<(Seq<char>, JsonModel)> = seq![("schema_version"@, JsonModel::UInt(v as u64))];
    let e2: Seq<(Seq<char>, JsonModel)> = seq![(name_key, JsonModel::Text(c.name))];
    let et: Seq<(Seq<char>, JsonModel)> = match c.tags {
        Option::Some(ts) => seq![("tags"@, JsonModel::Arr(enc_tags(ts)))],
        Option::None => Seq::empty(),
    };
    let ei: Seq<(Seq<char>, JsonModel)> = if c.items.len() == 0 {
        Seq::empty()
    } else {
        seq![("items"@, JsonModel::Obj(enc_items(c.items)))]
    };
    let ex: Seq<(Seq<char>, JsonModel)> = match c.extra {
        Option::Some(e) => seq![("extra"@, e)],
        Option::None => Seq::empty(),
    };
    let el: Seq<(Seq<char>, JsonModel)> = match c.license {
        Option::Some(l) => seq![("license"@, JsonModel::Text(l))],
        Option::None => Seq::empty(),
    };
    let es = e1 + e2 + et + ei + ex + el;
    assert(enc_crate(c, v) == JsonModel::Obj(es));
    assert(e1[0] == ("schema_version"@, JsonModel::UInt(v as u64)));
    assert(e2[0] == (name_key, JsonModel::Text(c.name)));
    // Each of the six keys misses every part but its own.
    lemma_lookup_chain(e1, e2, et, ei, ex, el, "schema_version"@);
    lemma_lookup_chain(e1, e2, et, ei, ex, el, name_key);
    lemma_lookup_chain(e1, e2, et, ei, ex, el, "tags"@);
    lemma_lookup_chain(e1, e2, et, ei, ex, el, "items"@);
    lemma_lookup_chain(e1, e2, et, ei, ex, el, "extra"@);
    lemma_lookup_chain(e1, e2, et, ei, ex, el, "license"@);
    // The version marker.
    lemma_lookup_single("schema_version"@, JsonModel::UInt(v as u64), "schema_version"@);
    lemma_miss(e2, et, ei, ex, el, c, v, "schema_version"@, name_key);
    assert(spec_lookup(es, "schema_version"@) == Option::Some(JsonModel::UInt(v as u64)));
    // The display name.
    lemma_lookup_single("schema_version"@, JsonModel::UInt(v as u64), name_key);
    lemma_lookup_single(name_key, JsonModel::Text(c.name), name_key);
    assert(spec_lookup(es, name_key) == Option::Some(JsonModel::Text(c.name)));
    // The tags.
    lemma_lookup_single("schema_version"@, JsonModel::UInt(v as u64), "tags"@);
    lemma_lookup_single(name_key, JsonModel::Text(c.name), "tags"@);
    lemma_miss(e2, et, ei, ex, el, c, v, "tags"@, name_key);
    match c.tags {
        Option::Some(ts) => {
            lemma_lookup_single("tags"@, JsonModel::Arr(enc_tags(ts)), "tags"@);
            assert(spec_lookup(es, "tags"@) == Option::Some(JsonModel::Arr(enc_tags(ts))));
            lemma_rt_tags(ts);
        },
        Option::None => {
            assert(spec_lookup(es, "tags"@) is None);
        },
    }
    // The declarations.
    lemma_lookup_single("schema_version"@, JsonModel::UInt(v as u64), "items"@);
    lemma_lookup_single(name_key, JsonModel::Text(c.name), "items"@);
    lemma_miss(e2, et, ei, ex, el, c, v, "items"@, name_key);
    if c.items.len() == 0 {
        assert(spec_lookup(es, "items"@) is None);
        assert(dec_crate(enc_crate(c, v), v) matches Option::Some(m) && m.items =~= c.items);
    } else {
        lemma_lookup_single("items"@, JsonModel::Obj(enc_items(c.items)), "items"@);
        assert(spec_lookup(es, "items"@) == Option::Some(JsonModel::Obj(enc_items(c.items))));
        lemma_rt_items(c.items, v);
    }
    // The opaque region.
    lemma_lookup_single("schema_version"@, JsonModel::UInt(v as u64), "extra"@);
    lemma_lookup_single(name_key, JsonModel::Text(c.name), "extra"@);
    lemma_miss(e2, et, ei, ex, el, c, v, "extra"@, name_key);
    match c.extra {
        Option::Some(e) => {
            lemma_lookup_single("extra"@, e, "extra"@);
            assert(spec_lookup(es, "extra"@) == Option::Some(e));
        },
        Option::None => {
            assert(spec_lookup(es, "extra"@) is None);
        },
    }
    // The license.
    lemma_lookup_single("schema_version"@, JsonModel::UInt(v as u64), "license"@);
    lemma_lookup_single(name_key, JsonModel::Text(c.name), "license"@);
    lemma_miss(e2, et, ei, ex, el, c, v, "license"@, name_key);
    match c.license {
        Option::Some(l) => {
            lemma_lookup_single("license"@, JsonModel::Text(l), "license"@);
            assert(spec_lookup(es, "license"@) == Option::Some(JsonModel::Text(l)));
        },
        Option::None => {
            assert(spec_lookup(es, "license"@) is None);
        },
    }
    assert(dec_crate(enc_crate(c, v), v) matches Option::Some(m) && m =~= c);
}

/// The lookup of each canonical key falls through the parts in order.
proof fn lemma_lookup_chain(
    e1: Seq<(Seq<char>, JsonModel)>,
    e2: Seq<(Seq<char>, JsonModel)>,
    et: Seq<(Seq<char>, JsonModel)>,
    ei: Seq<(Seq<char>, JsonModel)>,
    ex: Seq<(Seq<char>, JsonModel)>,
    el: Seq<(Seq<char>, JsonModel)>,
    k: Seq<char>,
)
    ensures
        spec_lookup(e1 + e2 + et + ei + ex + el, k) == first_of(
            spec_lookup(e1, k),
            first_of(
                spec_lookup(e2, k),
                first_of(
                    spec_lookup(et, k),
                    first_of(spec_lookup(ei, k), first_of(spec_lookup(ex, k), spec_lookup(el, k))),
                ),
            ),
        ),
{
    lemma_lookup_append(e1 + e2 + et + ei + ex, el, k);
    lemma_lookup_append(e1 + e2 + et + ei, ex, k);
    lemma_lookup_append(e1 + e2 + et, ei, k);
    lemma_lookup_append(e1 + e2, et, k);
    lemma_lookup_append(e1, e2, k);
    lemma_has_key_miss(e1, k);
    lemma_has_key_miss(e2, k);
    lemma_has_key_miss(et, k);
    lemma_has_key_miss(ei, k);
    lemma_has_key_miss(ex, k);
    lemma_has_key_miss(e1 + e2, k);
    lemma_has_key_miss(e1 + e2 + et, k);
    lemma_has_key_miss(e1 + e2 + et + ei, k);
    lemma_has_key_miss(e1 + e2 + et + ei + ex, k);
    lemma_has_key_append(e1, e2, k);
    lemma_has_key_append(e1 + e2, et, k);
    lemma_has_key_append(e1 + e2 + et, ei, k);
    lemma_has_key_append(e1 + e2 + et + ei, ex, k);
}

/// A missing key means the lookup returns nothing, and the other way round.
proof fn lemma_has_key_miss(s: Seq<(Seq<char>, JsonModel)>, k: Seq<char>)
    ensures
        has_key(s, k) <==> spec_lookup(s, k) is Some,
    decreases s.len(),
{
    if s.len() > 0 {
        assert(s.skip(1) =~= s.subrange(1, s.len() as int));
        lemma_has_key_miss(s.skip(1), k);
        if s[0].0 == k {
        } else {
            assert(has_key(s, k) <==> has_key(s.skip(1), k)) by {
                if has_key(s, k) {
                    let i = choose|i: int| 0 <= i < s.len() && s[i].0 == k;
                    assert(s.skip(1)[i - 1] == s[i]);
                }
                if has_key(s.skip(1), k) {
                    let i = choose|i: int| 0 <= i < s.skip(1).len() && s.skip(1)[i].0 == k;
                    assert(s[i + 1].0 == k);
                }
            }
        }
    }
}

/// None of the optional parts of a canonical document carries another
/// part's key.
proof fn lemma_miss(
    e2: Seq<(Seq<char>, JsonModel)>,
    et: Seq<(Seq<char>, JsonModel)>,
    ei: Seq<(Seq<char>, JsonModel)>,
    ex: Seq<(Seq<char>, JsonModel)>,
    el: Seq<(Seq<char>, JsonModel)>,
    c: CrateModel,
    v: int,
    k: Seq<char>,
    name_key: Seq<char>,
)
    requires
        e2 == seq![(name_key, JsonModel::Text(c.name))],
        et == (match c.tags {
            Option::Some(ts) => seq![("tags"@, JsonModel::Arr(enc_tags(ts)))],
            Option::None => Seq::<(Seq<char>, JsonModel)>::empty(),
        }),
        ei == (if c.items.len() == 0 {
            Seq::<(Seq<char>, JsonModel)>::empty()
        } else {
            seq![("items"@, JsonModel::Obj(enc_items(c.items)))]
        }),
        ex == (match c.extra {
            Option::Some(e) => seq![("extra"@, e)],
            Option::None => Seq::<(Seq<char>, JsonModel)>::empty(),
        }),
        el == (match c.license {
            Option::Some(l) => seq![("license"@, JsonModel::Text(l))],
            Option::None => Seq::<(Seq<char>, JsonModel)>::empty(),
        }),
    ensures
        k != name_key ==> spec_lookup(e2, k) is None,
        k != "tags"@ ==> spec_lookup(et, k) is None,
        k != "items"@ ==> spec_lookup(ei, k) is None,
        k != "extra"@ ==> spec_lookup(ex, k) is None,
        k != "license"@ ==> spec_lookup(el, k) is None,
{
    reveal_with_fuel(spec_lookup, 2);
    lemma_lookup_single(name_key, JsonModel::Text(c.name), k);
    match c.tags {
        Option::Some(ts) => {
            lemma_lookup_single("tags"@, JsonModel::Arr(enc_tags(ts)), k);
        },
        Option::None => {},
    }
    if c.items.len() > 0 {
        lemma_lookup_single("items"@, JsonModel::Obj(enc_items(c.items)), k);
    }
    match c.extra {
        Option::Some(e) => {
            lemma_lookup_single("extra"@, e, k);
        },
        Option::None => {},
    }
    match c.license {
        Option::Some(l) => {
            lemma_lookup_single("license"@, JsonModel::Text(l), k);
        },
        Option::None => {},
    }
}

/// What decoding accepts is expressible at the version it decoded at.
pub proof fn lemma_dec_type_ok(j: JsonModel, v: int)
    requires
        dec_type(j, v) is Some,
    ensures
        type_ok_at(dec_type(j, v)->0, v),
    decreases j,
{
    match j {
        JsonModel::Obj(es) => {
            if es.len() == 1 {
                if es[0].0 == key_primitive() {
                } else if es[0].0 == key_slice() {
                    lemma_dec_type_ok(es[0].1, v);
                } else if es[0].0 == key_named() {
                    match es[0].1 {
                        JsonModel::Obj(fs) => {
                            match fs[1].1 {
                                JsonModel::Arr(ts) => {
                                    lemma_dec_types_ok(ts, v);
                                },
                                _ => {},
                            }
                        },
                        _ => {},
                    }
                } else {
                }
            }
        },
        _ => {},
    }
}

/// What decoding accepts is expressible at the version it decoded at.
pub proof fn lemma_dec_types_ok(ts: Seq<JsonModel>, v: int)
    requires
        dec_types(ts, v) is Some,
    ensures
        types_ok_at(dec_types(ts, v)->0, v),
    decreases ts,
{
    if ts.len() > 0 {
        lemma_dec_type_ok(ts[0], v);
        lemma_dec_types_ok(ts.subrange(1, ts.len() as int), v);
        let ms = dec_types(ts, v)->0;
        assert(ms[0] == dec_type(ts[0], v)->0);
        assert(ms.subrange(1, ms.len() as int) =~= dec_types(ts.subrange(1, ts.len() as int), v)->0);
    }
}

/// Decoded declaration entries have pairwise-distinct keys and types
/// expressible at the decoded version.
pub proof fn lemma_dec_items_ok(es: Seq<(Seq<char>, JsonModel)>, v: int)
    requires
        dec_items(es, v) is Some,
    ensures
        ({
            let ms = dec_items(es, v)->0;
            &&& ms.len() == es.len()
            &&& forall|i: int| 0 <= i < ms.len() ==> (#[trigger] ms[i]).0 == es[i].0
            &&& distinct_keys(ms)
            &&& items_ok_at(ms, v)
        }),
    decreases es,
{
    if es.len() > 0 {
        let rest = es.subrange(1, es.len() as int);
        lemma_dec_items_ok(rest, v);
        let ms = dec_items(es, v)->0;
        let mrest = dec_items(rest, v)->0;
        assert(ms == seq![(es[0].0, dec_item(es[0].1, v)->0)] + mrest);
        assert(ms[0] == (es[0].0, dec_item(es[0].1, v)->0));
        assert(forall|i: int| 1 <= i < ms.len() ==> ms[i] == mrest[i - 1]);
        assert(forall|i: int| 0 <= i < ms.len() ==> (#[trigger] ms[i]).0 == es[i].0);
        assert(distinct_keys(ms)) by {
            assert(!has_key(rest, es[0].0));
            assert(forall|i: int| 1 <= i < ms.len() ==> (#[trigger] ms[i]).0 == rest[i - 1].0);
        }
        assert(items_ok_at(ms, v)) by {
            match es[0].1 {
                JsonModel::Obj(fs) => {
                    match spec_lookup(fs, "type"@) {
                        Option::Some(tj) => {
                            lemma_dec_type_ok(tj, v);
                        },
                        Option::None => {},
                    }
                },
                _ => {},
            }
        }
    }
}

/// A decoded document is expressible at the version it decoded at.
pub proof fn lemma_dec_crate_ok(j: JsonModel, v: int)
    requires
        dec_crate(j, v) is Some,
        version_supported(v),
    ensures
        crate_ok_at(dec_crate(j, v)->0, v),
{
    match j {
        JsonModel::Obj(es) => {
            match spec_lookup(es, "items"@) {
                Option::Some(JsonModel::Obj(ies)) => {
                    lemma_dec_items_ok(ies, v);
                },
                _ => {},
            }
        },
        _ => {},
    }
}

/// Composability of whole runs.
///
/// Migrating a document from its source version straight to the target
/// gives the same encoded result as migrating to a stopover version,
/// encoding, decoding again, and migrating on: the intermediate document
/// carries the stopover version's marker, decodes back to exactly the
/// migrated model, and the remaining chain agrees with the direct one.
pub proof fn lemma_run_compose(m: CrateModel, s: int, u: int, t: int)
    requires
        crate_ok_at(m, s),
        version_supported(s),
        version_supported(u),
        version_supported(t),
        s <= u <= t,
    ensures
        spec_detect(enc_crate(spec_chain(m, s, u), u)) == Option::Some(u as u64),
        dec_crate(enc_crate(spec_chain(m, s, u), u), u) == Option::Some(spec_chain(m, s, u)),
        enc_crate(spec_chain(spec_chain(m, s, u), u, t), t) == enc_crate(spec_chain(m, s, t), t),
{
    lemma_chain_ok(m, s, u);
    lemma_rt_crate(spec_chain(m, s, u), u);
    lemma_chain_compose(m, s, u, t);
}

} // verus!
