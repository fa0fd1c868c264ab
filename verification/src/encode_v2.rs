//! Encoding the typed document of version 2 back into a JSON tree.
//!
//! Encoding is total and exact: the produced tree is the one the encode
//! specification computes from the document's model.

use vstd::prelude::*;
use crate::codec::{
    enc_type, enc_item, enc_crate, lemma_enc_types, lemma_enc_items, lemma_enc_tags,
};
use crate::json::{JsonValue, JsonModel, model_arr, model_obj, lemma_model_arr, lemma_model_obj};
use crate::v2;

verus! {

/// Encodes a version 2 type expression.
pub fn encode_type_v2(t: v2::Type) -> (r: JsonValue)
    ensures
        r.model() == enc_type(t.model()),
    decreases t,
{
    let ghost gt = t;
    match t {
        v2::Type::Primitive(p) => {
            let mut es: Vec<(String, JsonValue)> = Vec::new();
            es.push((String::from_str("primitive"), JsonValue::Text(p)));
            let r = JsonValue::Obj(es);
            proof {
                lemma_model_obj(es@);
                assert(model_obj(es@) =~= enc_type(gt.model())->Obj_0);
            }
            r
        },
        v2::Type::Slice(e) => {
            let inner = encode_type_v2(*e);
            let mut es: Vec<(String, JsonValue)> = Vec::new();
            es.push((String::from_str("slice"), inner));
            let r = JsonValue::Obj(es);
            proof {
                lemma_model_obj(es@);
                assert(model_obj(es@) =~= enc_type(gt.model())->Obj_0);
            }
            r
        },
        v2::Type::Named { name, args } => {
            let ghost gargs = args;
            let mut args = args;
            let mut out: Vec<JsonValue> = Vec::new();
            while args.len() > 0
                invariant
                    out@.len() + args@.len() == gargs@.len(),
                    args@ == gargs@.subrange(out@.len() as int, gargs@.len() as int),
                    forall|j: int| 0 <= j < out@.len()
                        ==> (#[trigger] out@[j]).model() == enc_type(gargs@[j].model()),
                    gt == t,
                    decreases_to!(gt => gargs),
                decreases args@.len(),
            {
                proof {
                    assert(decreases_to!(gargs => gargs@[out@.len() as int]));
                }
                let x = args.remove(0);
                assert(x == gargs@[out@.len() as int]);
                out.push(encode_type_v2(x));
                proof {
                    assert(args@ =~= gargs@.subrange(out@.len() as int, gargs@.len() as int));
                }
            }
            proof {
                lemma_model_arr(out@);
                v2::lemma_model_types(gargs@);
                lemma_enc_types(v2::model_types(gargs@));
                assert(model_arr(out@) =~= crate::codec::enc_types(v2::model_types(gargs@)));
            }
            let mut fs: Vec<(String, JsonValue)> = Vec::new();
            fs.push((String::from_str("name"), JsonValue::Text(name)));
            fs.push((String::from_str("args"), JsonValue::Arr(out)));
            let mut es: Vec<(String, JsonValue)> = Vec::new();
            es.push((String::from_str("named"), JsonValue::Obj(fs)));
            let r = JsonValue::Obj(es);
            proof {
                lemma_model_obj(fs@);
                lemma_model_obj(es@);
                assert(model_obj(fs@) =~= enc_type(gt.model())->Obj_0[0].1->Obj_0);
                assert(model_obj(es@) =~= enc_type(gt.model())->Obj_0);
            }
            r
        },
    }
}

/// Encodes one version 2 declaration in the canonical field order.
pub fn encode_item_v2(it: v2::Item) -> (r: JsonValue)
    ensures
        r.model() == enc_item(it.model()),
{
    let ghost gi = it;
    let v2::Item { name, docs, ty } = it;
    let mut es: Vec<(String, JsonValue)> = Vec::new();
    es.push((String::from_str("name"), JsonValue::Text(name)));
    match docs {
        Some(d) => es.push((String::from_str("docs"), JsonValue::Text(d))),
        None => {},
    }
    es.push((String::from_str("type"), encode_type_v2(ty)));
    let r = JsonValue::Obj(es);
    proof {
        lemma_model_obj(es@);
        assert(model_obj(es@) =~= enc_item(gi.model())->Obj_0);
    }
    r
}

/// Encodes a whole version 2 document in the canonical entry order.
pub fn encode_crate_v2(c: v2::Crate) -> (r: JsonValue)
    ensures
        r.model() == enc_crate(c.model(), 2),
{
    let ghost gc = c;
    let v2::Crate { name, tags, items, extra } = c;
    let mut es: Vec<(String, JsonValue)> = Vec::new();
    es.push((String::from_str("schema_version"), JsonValue::UInt(2)));
    es.push((String::from_str("name"), JsonValue::Text(name)));
    {
        {
            let ts = tags;
            let ghost gts = ts;
            let mut arr: Vec<JsonValue> = Vec::new();
            let mut ts = ts;
            while ts.len() > 0
                invariant
                    arr@.len() + ts@.len() == gts@.len(),
                    ts@ == gts@.subrange(arr@.len() as int, gts@.len() as int),
                    forall|j: int| 0 <= j < arr@.len()
                        ==> (#[trigger] arr@[j]).model() == JsonModel::Text(gts@[j]@),
                decreases ts@.len(),
            {
                let x = ts.remove(0);
                assert(x == gts@[arr@.len() as int]);
                arr.push(JsonValue::Text(x));
                proof {
                    assert(ts@ =~= gts@.subrange(arr@.len() as int, gts@.len() as int));
                }
            }
            proof {
                lemma_model_arr(arr@);
                lemma_enc_tags(gts.deep_view());
                assert(model_arr(arr@) =~= crate::codec::enc_tags(gts.deep_view()));
            }
            es.push((String::from_str("tags"), JsonValue::Arr(arr)));
        }
    }
    {
        let ghost gm = items.model();
        let mut ies: Vec<(String, JsonValue)> = Vec::new();
        let mut entries = items.into_entries();
        while entries.len() > 0
            invariant
                ies@.len() + entries@.len() == gm.len(),
                forall|j: int| 0 <= j < entries@.len()
                    ==> (#[trigger] entries@[j].0@, entries@[j].1) == gm[ies@.len() + j],
                forall|j: int| 0 <= j < ies@.len()
                    ==> (#[trigger] ies@[j].0@, ies@[j].1.model())
                        == (gm[j].0, enc_item(gm[j].1.model())),
            decreases entries@.len(),
        {
            let ghost i = ies@.len() as int;
            proof {
                assert((entries@[0].0@, entries@[0].1) == gm[i]);
            }
            let (k, it) = entries.remove(0);
            let ej = encode_item_v2(it);
            ies.push((k, ej));
        }
        proof {
            lemma_model_obj(ies@);
            v2::lemma_model_items(gm);
            lemma_enc_items(v2::model_items(gm));
            assert(model_obj(ies@) =~= crate::codec::enc_items(v2::model_items(gm)));
        }
        if ies.len() > 0 {
            es.push((String::from_str("items"), JsonValue::Obj(ies)));
        }
    }
    match extra {
        Some(e) => es.push((String::from_str("extra"), e)),
        None => {},
    }
    let r = JsonValue::Obj(es);
    proof {
        lemma_model_obj(es@);
        assert(model_obj(es@) =~= enc_crate(gc.model(), 2)->Obj_0);
    }
    r
}

} // verus!
