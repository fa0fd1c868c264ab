//! Decoding a JSON tree into a version's typed document and encoding a
//! typed document back into a JSON tree.
//!
//! The wire form is canonical: a type expression is an object with exactly
//! one entry (its variant), a `named` type carries exactly the `name` and
//! `args` entries in that order, and a document's entries may come in any
//! order and are found by key.  Decoding is exact: it succeeds on
//! precisely the trees these specification functions accept, and returns
//! the document whose model they compute.

use vstd::prelude::*;
use crate::json::{JsonModel, spec_lookup};
use crate::model::{TypeModel, ItemModel, CrateModel};

verus! {

/// The character sequences of the canonical keys.
pub open spec fn key_primitive() -> Seq<char> { "primitive"@ }
pub open spec fn key_slice() -> Seq<char> { "slice"@ }
pub open spec fn key_named() -> Seq<char> { "named"@ }
pub open spec fn key_infer() -> Seq<char> { "infer"@ }

/// Decodes a type expression at version `v`.
pub open spec fn dec_type(j: JsonModel, v: int) -> Option<TypeModel>
    decreases j,
{
    match j {
        JsonModel::Obj(es) => {
            if es.len() != 1 {
                Option::None
            } else if es[0].0 == key_primitive() {
                match es[0].1 {
                    JsonModel::Text(t) => Option::Some(TypeModel::Primitive(t)),
                    _ => Option::None,
                }
            } else if es[0].0 == key_slice() {
                match dec_type(es[0].1, v) {
                    Option::Some(t) => Option::Some(TypeModel::Slice(Box::new(t))),
                    Option::None => Option::None,
                }
            } else if es[0].0 == key_named() {
                match es[0].1 {
                    JsonModel::Obj(fs) => {
                        if fs.len() == 2 && fs[0].0 == "name"@ && fs[1].0 == "args"@ {
                            match fs[0].1 {
                                JsonModel::Text(n) => match fs[1].1 {
                                    JsonModel::Arr(ts) => match dec_types(ts, v) {
                                        Option::Some(ms) => Option::Some(TypeModel::Named(n, ms)),
                                        Option::None => Option::None,
                                    },
                                    _ => Option::None,
                                },
                                _ => Option::None,
                            }
                        } else {
                            Option::None
                        }
                    },
                    _ => Option::None,
                }
            } else if es[0].0 == key_infer() && v == 3 {
                match es[0].1 {
                    JsonModel::Null => Option::Some(TypeModel::Infer),
                    _ => Option::None,
                }
            } else {
                Option::None
            }
        },
        _ => Option::None,
    }
}

/// Decodes a sequence of type expressions, element by element.
pub open spec fn dec_types(ts: Seq<JsonModel>, v: int) -> Option<Seq<TypeModel>>
    decreases ts,
{
    if ts.len() == 0 {
        Option::Some(Seq::empty())
    } else {
        match dec_type(ts[0], v) {
            Option::Some(t) => match dec_types(ts.subrange(1, ts.len() as int), v) {
                Option::Some(rest) => Option::Some(seq![t] + rest),
                Option::None => Option::None,
            },
            Option::None => Option::None,
        }
    }
}

/// Decodes one declaration at version `v`.
pub open spec fn dec_item(j: JsonModel, v: int) -> Option<ItemModel> {
    match j {
        JsonModel::Obj(es) => {
            match spec_lookup(es, "name"@) {
                Option::Some(JsonModel::Text(n)) => {
                    let docs = spec_lookup(es, "docs"@);
                    if docs matches Option::Some(d) && !(d is Text) {
                        Option::None
                    } else {
                        match spec_lookup(es, "type"@) {
                            Option::Some(tj) => match dec_type(tj, v) {
                                Option::Some(t) => Option::Some(ItemModel {
                                    name: n,
                                    docs: match docs {
                                        Option::Some(JsonModel::Text(d)) => Option::Some(d),
                                        _ => Option::None,
                                    },
                                    ty: t,
                                }),
                                Option::None => Option::None,
                            },
                            Option::None => Option::None,
                        }
                    }
                },
                _ => Option::None,
            }
        },
        _ => Option::None,
    }
}

/// Whether some entry carries the key.
pub open spec fn has_key<A>(s: Seq<(Seq<char>, A)>, k: Seq<char>) -> bool {
    exists|i: int| 0 <= i < s.len() && s[i].0 == k
}

/// Decodes the declaration entries at version `v`: every declaration must
/// decode and the keys must be pairwise distinct.
pub open spec fn dec_items(es: Seq<(Seq<char>, JsonModel)>, v: int) -> Option<
    Seq<(Seq<char>, ItemModel)>,
>
    decreases es,
{
    if es.len() == 0 {
        Option::Some(Seq::empty())
    } else if has_key(es.subrange(1, es.len() as int), es[0].0) {
        Option::None
    } else {
        match dec_item(es[0].1, v) {
            Option::Some(it) => match dec_items(es.subrange(1, es.len() as int), v) {
                Option::Some(rest) => Option::Some(seq![(es[0].0, it)] + rest),
                Option::None => Option::None,
            },
            Option::None => Option::None,
        }
    }
}

/// Decodes a sequence of tags: every element must be text.
pub open spec fn dec_tags(ts: Seq<JsonModel>) -> Option<Seq<Seq<char>>>
    decreases ts,
{
    if ts.len() == 0 {
        Option::Some(Seq::empty())
    } else {
        match ts[0] {
            JsonModel::Text(t) => match dec_tags(ts.subrange(1, ts.len() as int)) {
                Option::Some(rest) => Option::Some(seq![t] + rest),
                Option::None => Option::None,
            },
            _ => Option::None,
        }
    }
}

/// Decodes a whole document claimed to be at version `v`.
///
/// The embedded `schema_version` marker must equal `v`; the name lives
/// under `title` at version 1 and under `name` later; tags are optional at
/// version 1 and required later; absent `items` mean no declarations; the
/// `extra` region is taken as it stands; only version 3 reads `license`.
pub open spec fn dec_crate(j: JsonModel, v: int) -> Option<CrateModel> {
    match j {
        JsonModel::Obj(es) => {
            if spec_lookup(es, "schema_version"@) != Option::Some(JsonModel::UInt(v as u64)) {
                Option::None
            } else {
                let name_key = if v == 1 { "title"@ } else { "name"@ };
                match spec_lookup(es, name_key) {
                    Option::Some(JsonModel::Text(n)) => {
                        let tags = match spec_lookup(es, "tags"@) {
                            Option::Some(JsonModel::Arr(ts)) => match dec_tags(ts) {
                                Option::Some(ds) => Option::Some(Option::Some(ds)),
                                Option::None => Option::None,
                            },
                            Option::Some(_) => Option::None,
                            Option::None => Option::Some(Option::None),
                        };
                        let items = match spec_lookup(es, "items"@) {
                            Option::Some(JsonModel::Obj(ies)) => dec_items(ies, v),
                            Option::Some(_) => Option::None,
                            Option::None => Option::Some(Seq::empty()),
                        };
                        let license = if v == 3 {
                            match spec_lookup(es, "license"@) {
                                Option::Some(JsonModel::Text(l)) => Option::Some(
                                    Option::Some(l),
                                ),
                                Option::Some(_) => Option::None,
                                Option::None => Option::Some(Option::None),
                            }
                        } else {
                            Option::Some(Option::None)
                        };
                        match (tags, items, license) {
                            (
                                Option::Some(tags),
                                Option::Some(items),
                                Option::Some(license),
                            ) => {
                                if v >= 2 && tags is None {
                                    Option::None
                                } else {
                                    Option::Some(CrateModel {
                                        name: n,
                                        tags: tags,
                                        items: items,
                                        extra: spec_lookup(es, "extra"@),
                                        license: license,
                                    })
                                }
                            },
                            _ => Option::None,
                        }
                    },
                    _ => Option::None,
                }
            }
        },
        _ => Option::None,
    }
}

/// A sequence whose elements all decode, decodes to their models.
pub proof fn lemma_dec_types_some(s: Seq<JsonModel>, v: int, ms: Seq<TypeModel>)
    requires
        ms.len() == s.len(),
        forall|i: int| 0 <= i < s.len() ==> dec_type(s[i], v) == Option::Some(ms[i]),
    ensures
        dec_types(s, v) == Option::Some(ms),
    decreases s.len(),
{
    if s.len() > 0 {
        lemma_dec_types_some(s.subrange(1, s.len() as int), v, ms.subrange(1, ms.len() as int));
        assert(seq![ms[0]] + ms.subrange(1, ms.len() as int) =~= ms);
    }
}

/// One element that does not decode makes the whole sequence fail.
pub proof fn lemma_dec_types_none(s: Seq<JsonModel>, v: int, i: int)
    requires
        0 <= i < s.len(),
        dec_type(s[i], v) is None,
    ensures
        dec_types(s, v) is None,
    decreases s.len(),
{
    if i > 0 {
        lemma_dec_types_none(s.subrange(1, s.len() as int), v, i - 1);
    }
}

/// Tags whose elements are all text decode to their contents.
pub proof fn lemma_dec_tags_some(s: Seq<JsonModel>, ms: Seq<Seq<char>>)
    requires
        ms.len() == s.len(),
        forall|i: int| 0 <= i < s.len() ==> s[i] == JsonModel::Text(ms[i]),
    ensures
        dec_tags(s) == Option::Some(ms),
    decreases s.len(),
{
    if s.len() > 0 {
        lemma_dec_tags_some(s.subrange(1, s.len() as int), ms.subrange(1, ms.len() as int));
        assert(seq![ms[0]] + ms.subrange(1, ms.len() as int) =~= ms);
    }
}

/// One tag that is not text makes the tags fail.
pub proof fn lemma_dec_tags_none(s: Seq<JsonModel>, i: int)
    requires
        0 <= i < s.len(),
        !(s[i] is Text),
    ensures
        dec_tags(s) is None,
    decreases s.len(),
{
    if i > 0 {
        lemma_dec_tags_none(s.subrange(1, s.len() as int), i - 1);
    }
}

/// Entries that all decode, under pairwise-distinct keys, decode to their
/// keyed models.
pub proof fn lemma_dec_items_some(
    es: Seq<(Seq<char>, JsonModel)>,
    v: int,
    ms: Seq<(Seq<char>, ItemModel)>,
)
    requires
        ms.len() == es.len(),
        forall|i: int| 0 <= i < es.len()
            ==> (#[trigger] ms[i]).0 == es[i].0 && dec_item(es[i].1, v) == Option::Some(ms[i].1),
        crate::strmap::distinct_keys(ms),
    ensures
        dec_items(es, v) == Option::Some(ms),
    decreases es.len(),
{
    if es.len() > 0 {
        assert(forall|i: int| 0 <= i < es.len() ==> (#[trigger] es[i]).0 == ms[i].0);
        assert(!has_key(es.subrange(1, es.len() as int), es[0].0));
        lemma_dec_items_some(
            es.subrange(1, es.len() as int),
            v,
            ms.subrange(1, ms.len() as int),
        );
        assert(seq![ms[0]] + ms.subrange(1, ms.len() as int) =~= ms);
    }
}

/// One declaration that does not decode makes the entries fail.
pub proof fn lemma_dec_items_none(es: Seq<(Seq<char>, JsonModel)>, v: int, i: int)
    requires
        0 <= i < es.len(),
        dec_item(es[i].1, v) is None,
    ensures
        dec_items(es, v) is None,
    decreases es.len(),
{
    if i > 0 {
        lemma_dec_items_none(es.subrange(1, es.len() as int), v, i - 1);
    }
}

/// A repeated key makes the entries fail.
pub proof fn lemma_dec_items_dup(es: Seq<(Seq<char>, JsonModel)>, v: int, i: int, j: int)
    requires
        0 <= i < j < es.len(),
        es[i].0 == es[j].0,
    ensures
        dec_items(es, v) is None,
    decreases es.len(),
{
    if i == 0 {
        assert(es.subrange(1, es.len() as int)[j - 1].0 == es[0].0);
        assert(has_key(es.subrange(1, es.len() as int), es[0].0));
    } else {
        lemma_dec_items_dup(es.subrange(1, es.len() as int), v, i - 1, j - 1);
    }
}

/// Encodes a type expression.
pub open spec fn enc_type(t: TypeModel) -> JsonModel
    decreases t,
{
    match t {
        TypeModel::Primitive(p) => JsonModel::Obj(seq![(key_primitive(), JsonModel::Text(p))]),
        TypeModel::Slice(e) => JsonModel::Obj(seq![(key_slice(), enc_type(*e))]),
        TypeModel::Named(n, args) => JsonModel::Obj(
            seq![
                (
                    key_named(),
                    JsonModel::Obj(
                        seq![
                            ("name"@, JsonModel::Text(n)),
                            ("args"@, JsonModel::Arr(enc_types(args))),
                        ],
                    ),
                ),
            ],
        ),
        TypeModel::Infer => JsonModel::Obj(seq![(key_infer(), JsonModel::Null)]),
    }
}

/// Encodes a sequence of type expressions, element by element.
pub open spec fn enc_types(ts: Seq<TypeModel>) -> Seq<JsonModel>
    decreases ts,
{
    if ts.len() == 0 {
        Seq::empty()
    } else {
        seq![enc_type(ts[0])] + enc_types(ts.subrange(1, ts.len() as int))
    }
}

/// Encodes one declaration: `name`, then `docs` when present, then `type`.
pub open spec fn enc_item(it: ItemModel) -> JsonModel {
    JsonModel::Obj(
        seq![("name"@, JsonModel::Text(it.name))] + (match it.docs {
            Option::Some(d) => seq![("docs"@, JsonModel::Text(d))],
            Option::None => Seq::empty(),
        }) + seq![("type"@, enc_type(it.ty))],
    )
}

/// Encodes the declaration entries, in order.
pub open spec fn enc_items(s: Seq<(Seq<char>, ItemModel)>) -> Seq<(Seq<char>, JsonModel)>
    decreases s,
{
    if s.len() == 0 {
        Seq::empty()
    } else {
        seq![(s[0].0, enc_item(s[0].1))] + enc_items(s.subrange(1, s.len() as int))
    }
}

/// Encodes the tags, in order.
pub open spec fn enc_tags(ts: Seq<Seq<char>>) -> Seq<JsonModel>
    decreases ts,
{
    if ts.len() == 0 {
        Seq::empty()
    } else {
        seq![JsonModel::Text(ts[0])] + enc_tags(ts.subrange(1, ts.len() as int))
    }
}

/// `enc_types` maps the sequence element by element.
pub proof fn lemma_enc_types(ts: Seq<TypeModel>)
    ensures
        enc_types(ts).len() == ts.len(),
        forall|i: int| 0 <= i < ts.len() ==> enc_types(ts)[i] == enc_type(ts[i]),
    decreases ts.len(),
{
    if ts.len() > 0 {
        lemma_enc_types(ts.subrange(1, ts.len() as int));
    }
}

/// `enc_items` maps the entries element by element and keeps the keys.
pub proof fn lemma_enc_items(s: Seq<(Seq<char>, ItemModel)>)
    ensures
        enc_items(s).len() == s.len(),
        forall|i: int| 0 <= i < s.len() ==> enc_items(s)[i] == (s[i].0, enc_item(s[i].1)),
    decreases s.len(),
{
    if s.len() > 0 {
        lemma_enc_items(s.subrange(1, s.len() as int));
    }
}

/// `enc_tags` maps the tags element by element.
pub proof fn lemma_enc_tags(ts: Seq<Seq<char>>)
    ensures
        enc_tags(ts).len() == ts.len(),
        forall|i: int| 0 <= i < ts.len() ==> enc_tags(ts)[i] == JsonModel::Text(ts[i]),
    decreases ts.len(),
{
    if ts.len() > 0 {
        lemma_enc_tags(ts.subrange(1, ts.len() as int));
    }
}

/// Encodes a whole document at version `v`, in the canonical entry order:
/// the version marker, the name, the tags when present, the declarations,
/// the opaque region when present, the license when present.
pub open spec fn enc_crate(c: CrateModel, v: int) -> JsonModel {
    JsonModel::Obj(
        seq![("schema_version"@, JsonModel::UInt(v as u64))]
            + seq![((if v == 1 { "title"@ } else { "name"@ }), JsonModel::Text(c.name))]
            + (match c.tags {
            Option::Some(ts) => seq![("tags"@, JsonModel::Arr(enc_tags(ts)))],
            Option::None => Seq::empty(),
        }) + (if c.items.len() == 0 {
            Seq::empty()
        } else {
            seq![("items"@, JsonModel::Obj(enc_items(c.items)))]
        }) + (match c.extra {
            Option::Some(e) => seq![("extra"@, e)],
            Option::None => Seq::empty(),
        }) + (match c.license {
            Option::Some(l) => seq![("license"@, JsonModel::Text(l))],
            Option::None => Seq::empty(),
        }),
    )
}

} // verus!
