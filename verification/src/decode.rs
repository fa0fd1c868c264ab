//! Decoding a JSON tree into the typed document of version 1.
//!
//! Decoding is exact: it succeeds on precisely the trees the decode
//! specification accepts and returns the document whose model it computes;
//! a failure names the offending field.

use vstd::prelude::*;
use crate::codec::{
    dec_type, dec_item, dec_items, dec_tags, dec_crate,
    lemma_dec_types_some, lemma_dec_types_none, lemma_dec_tags_some, lemma_dec_tags_none,
    lemma_dec_items_some, lemma_dec_items_none, lemma_dec_items_dup,
};
use crate::error::MigrateError;
use crate::json::{
    JsonValue, JsonModel, clone_json, lookup, model_arr, model_obj, lemma_model_arr,
    lemma_model_obj,
};
use crate::strmap::StrMap;
use crate::v1;

verus! {

/// Decodes a version 1 type expression.
pub fn decode_type_v1(j: &JsonValue) -> (r: Result<v1::Type, MigrateError>)
    ensures
        match r {
            Ok(t) => dec_type(j.model(), 1) == Option::Some(t.model()),
            Err(e) => dec_type(j.model(), 1) is None && e is Shape,
        },
    decreases *j,
{
    match j {
        JsonValue::Obj(o) => {
            proof {
                lemma_model_obj(o@);
            }
            if o.len() != 1 {
                return Err(MigrateError::shape_at("type"));
            }
            if o[0].0 == String::from_str("primitive") {
                match &o[0].1 {
                    JsonValue::Text(t) => Ok(v1::Type::Primitive(t.clone())),
                    _ => Err(MigrateError::shape_at("primitive")),
                }
            } else if o[0].0 == String::from_str("slice") {
                proof {
                    assert(decreases_to!(*j => *o));
                    assert(decreases_to!(*o => o@[0]));
                    assert(decreases_to!(o@[0] => o@[0].1));
                }
                match decode_type_v1(&o[0].1) {
                    Ok(t) => Ok(v1::Type::Slice(Box::new(t))),
                    Err(e) => Err(e.nested("slice")),
                }
            } else if o[0].0 == String::from_str("named") {
                match &o[0].1 {
                    JsonValue::Obj(fs) => {
                        proof {
                            lemma_model_obj(fs@);
                        }
                        if fs.len() != 2 {
                            return Err(MigrateError::shape_at("named"));
                        }
                        if !(fs[0].0 == String::from_str("name"))
                            || !(fs[1].0 == String::from_str("args")) {
                            return Err(MigrateError::shape_at("named"));
                        }
                        let name: String = match &fs[0].1 {
                            JsonValue::Text(n) => n.clone(),
                            _ => {
                                return Err(MigrateError::shape_at("name"));
                            },
                        };
                        match &fs[1].1 {
                            JsonValue::Arr(ts) => {
                                proof {
                                    assert(decreases_to!(*j => *o));
                                    assert(decreases_to!(*o => o@[0]));
                                    assert(decreases_to!(o@[0] => o@[0].1));
                                    assert(decreases_to!(o@[0].1 => *fs));
                                    assert(decreases_to!(*fs => fs@[1]));
                                    assert(decreases_to!(fs@[1] => fs@[1].1));
                                    assert(decreases_to!(fs@[1].1 => *ts));
                                    assert(decreases_to!(*j => *ts));
                                }
                                match decode_types_v1(ts) {
                                    Ok(args) => Ok(v1::Type::Named { name, args }),
                                    Err(e) => Err(e.nested("args")),
                                }
                            },
                            _ => Err(MigrateError::shape_at("args")),
                        }
                    },
                    _ => Err(MigrateError::shape_at("named")),
                }
            } else {
                Err(MigrateError::shape_at("type"))
            }
        },
        _ => Err(MigrateError::shape_at("type")),
    }
}

/// Decodes a sequence of version 1 type expressions, element by element.
pub fn decode_types_v1(ts: &Vec<JsonValue>) -> (r: Result<Vec<v1::Type>, MigrateError>)
    ensures
        match r {
            Ok(out) => crate::codec::dec_types(model_arr(ts@), 1)
                == Option::Some(v1::model_types(out@)),
            Err(e) => crate::codec::dec_types(model_arr(ts@), 1) is None && e is Shape,
        },
    decreases *ts,
{
    let mut args: Vec<v1::Type> = Vec::new();
    let mut i: usize = 0;
    while i < ts.len()
        invariant
            0 <= i <= ts@.len(),
            args@.len() == i,
            forall|k: int| 0 <= k < i
                ==> dec_type(ts@[k].model(), 1) == Option::Some((#[trigger] args@[k]).model()),
        decreases ts@.len() - i,
    {
        proof {
            assert(decreases_to!(*ts => ts@[i as int]));
        }
        match decode_type_v1(&ts[i]) {
            Ok(t) => args.push(t),
            Err(e) => {
                proof {
                    lemma_model_arr(ts@);
                    lemma_dec_types_none(model_arr(ts@), 1, i as int);
                }
                return Err(e);
            },
        }
        i = i + 1;
    }
    proof {
        lemma_model_arr(ts@);
        v1::lemma_model_types(args@);
        lemma_dec_types_some(model_arr(ts@), 1, v1::model_types(args@));
    }
    Ok(args)
}

/// Decodes one version 1 declaration.
pub fn decode_item_v1(j: &JsonValue) -> (r: Result<v1::Item, MigrateError>)
    ensures
        match r {
            Ok(it) => dec_item(j.model(), 1) == Option::Some(it.model()),
            Err(e) => dec_item(j.model(), 1) is None && e is Shape,
        },
{
    match j {
        JsonValue::Obj(o) => {
            let name: String = match lookup(o, &String::from_str("name")) {
                Some(JsonValue::Text(n)) => n.clone(),
                _ => {
                    return Err(MigrateError::shape_at("name"));
                },
            };
            let docs: Option<String> = match lookup(o, &String::from_str("docs")) {
                Some(JsonValue::Text(d)) => Some(d.clone()),
                None => None,
                _ => {
                    return Err(MigrateError::shape_at("docs"));
                },
            };
            let ty: v1::Type = match lookup(o, &String::from_str("type")) {
                Some(tj) => match decode_type_v1(tj) {
                    Ok(t) => t,
                    Err(e) => {
                        return Err(e.nested("type"));
                    },
                },
                None => {
                    return Err(MigrateError::shape_at("type"));
                },
            };
            Ok(v1::Item { name, docs, ty })
        },
        _ => Err(MigrateError::shape_at("item")),
    }
}

/// Decodes the version 1 declaration entries into a mapping, rejecting a
/// repeated key.
pub fn decode_items_v1(ies: &Vec<(String, JsonValue)>) -> (r: Result<
    StrMap<v1::Item>,
    MigrateError,
>)
    ensures
        match r {
            Ok(map) => map.wf() && dec_items(model_obj(ies@), 1)
                == Option::Some(v1::model_items(map.model())),
            Err(e) => dec_items(model_obj(ies@), 1) is None && e is Shape,
        },
{
    proof {
        lemma_model_obj(ies@);
    }
    let mut map: StrMap<v1::Item> = StrMap::new();
    let mut i: usize = 0;
    while i < ies.len()
        invariant
            0 <= i <= ies@.len(),
            map.wf(),
            map.model().len() == i,
            forall|k: int| 0 <= k < i
                ==> (#[trigger] map.model()[k]).0 == ies@[k].0@
                    && dec_item(ies@[k].1.model(), 1) == Option::Some(map.model()[k].1.model()),
        decreases ies@.len() - i,
    {
        proof {
            lemma_model_obj(ies@);
        }
        let it = match decode_item_v1(&ies[i].1) {
            Ok(it) => it,
            Err(e) => {
                proof {
                    lemma_dec_items_none(model_obj(ies@), 1, i as int);
                }
                return Err(e);
            },
        };
        match map.get(&ies[i].0) {
            Some(_) => {
                proof {
                    let m = map.model();
                    let dup = choose|k: int| 0 <= k < m.len() && m[k] == (ies@[i as int].0@, m[k].1);
                    assert(model_obj(ies@)[dup].0 == model_obj(ies@)[i as int].0);
                    lemma_dec_items_dup(model_obj(ies@), 1, dup, i as int);
                }
                return Err(MigrateError::shape_at("items"));
            },
            None => {},
        }
        let ghost before = map.model();
        map.insert(ies[i].0.clone(), it);
        proof {
            assert(map.model() =~= before.push((ies@[i as int].0@, it)));
        }
        i = i + 1;
    }
    proof {
        lemma_model_obj(ies@);
        v1::lemma_model_items(map.model());
        lemma_dec_items_some(model_obj(ies@), 1, v1::model_items(map.model()));
    }
    Ok(map)
}

/// Decodes a sequence of tags, each a text value.
pub fn decode_tags(ts: &Vec<JsonValue>) -> (r: Result<Vec<String>, MigrateError>)
    ensures
        match r {
            Ok(out) => dec_tags(model_arr(ts@)) == Option::Some(out.deep_view()),
            Err(e) => dec_tags(model_arr(ts@)) is None && e is Shape,
        },
{
    let mut out: Vec<String> = Vec::new();
    let mut i: usize = 0;
    while i < ts.len()
        invariant
            0 <= i <= ts@.len(),
            out@.len() == i,
            forall|k: int| 0 <= k < i ==> ts@[k].model() == JsonModel::Text((#[trigger] out@[k])@),
        decreases ts@.len() - i,
    {
        match &ts[i] {
            JsonValue::Text(t) => out.push(t.clone()),
            _ => {
                proof {
                    lemma_model_arr(ts@);
                    lemma_dec_tags_none(model_arr(ts@), i as int);
                }
                return Err(MigrateError::shape_at("tags"));
            },
        }
        i = i + 1;
    }
    proof {
        lemma_model_arr(ts@);
        lemma_dec_tags_some(model_arr(ts@), out.deep_view());
    }
    Ok(out)
}

/// Decodes a whole document claimed to be at version 1.
///
/// Succeeds exactly on the trees that the decode specification accepts at
/// version 1, returning a well-formed document with the specified model.
pub fn decode_crate_v1(j: &JsonValue) -> (r: Result<v1::Crate, MigrateError>)
    ensures
        match r {
            Ok(c) => dec_crate(j.model(), 1) == Option::Some(c.model()) && c.wf(),
            Err(e) => dec_crate(j.model(), 1) is None && e is Shape,
        },
{
    let o: &Vec<(String, JsonValue)> = match j {
        JsonValue::Obj(o) => o,
        _ => {
            return Err(MigrateError::shape_at("document"));
        },
    };
    match lookup(o, &String::from_str("schema_version")) {
        Some(JsonValue::UInt(n)) => {
            if *n != 1 {
                return Err(MigrateError::shape_at("schema_version"));
            }
        },
        _ => {
            return Err(MigrateError::shape_at("schema_version"));
        },
    }
    let title: String = match lookup(o, &String::from_str("title")) {
        Some(JsonValue::Text(t)) => t.clone(),
        _ => {
            return Err(MigrateError::shape_at("title"));
        },
    };
    let tags: Option<Vec<String>> = match lookup(o, &String::from_str("tags")) {
        Some(JsonValue::Arr(ts)) => {
            match decode_tags(ts) {
                Ok(out) => Some(out),
                Err(e) => {
                    return Err(e);
                },
            }
        },
        Some(_) => {
            return Err(MigrateError::shape_at("tags"));
        },
        None => None,
    };
    let items: StrMap<v1::Item> = match lookup(o, &String::from_str("items")) {
        Some(JsonValue::Obj(ies)) => {
            match decode_items_v1(ies) {
                Ok(map) => map,
                Err(e) => {
                    return Err(e.nested("items"));
                },
            }
        },
        Some(_) => {
            return Err(MigrateError::shape_at("items"));
        },
        None => StrMap::new(),
    };
    let extra: Option<JsonValue> = match lookup(o, &String::from_str("extra")) {
        Some(e) => Some(clone_json(e)),
        None => None,
    };
    let c = v1::Crate { title, tags, items, extra };
    proof {
        v1::lemma_model_items(c.items.model());
        assert(dec_crate(j.model(), 1) matches Option::Some(m) && m =~= c.model());
    }
    Ok(c)
}

} // verus!
