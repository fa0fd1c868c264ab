//! The single-step migrations between adjacent schema versions.
//!
//! Each named type of a version migrates to its counterpart at the next
//! version.  Types whose shape did not change are copied mechanically,
//! field for field, through the structural lifters; only the actual
//! breaking changes — the `title` rename with the tag default at version 1,
//! and the new fields and variants at version 3 — carry hand-written logic.

use vstd::prelude::*;
use crate::lift::{lift_leaf, lift_option, lift_strmap, lemma_insert_all_of_distinct};
use crate::model::spec_step;
use crate::strmap::distinct_keys;
use crate::{v1, v2, v3};

verus! {

/// Migrates a type expression from version 1 to version 2; the shape is
/// unchanged, so this is the mechanical recursive copy.
pub fn type_1_to_2(t: v1::Type) -> (r: v2::Type)
    ensures
        r.model() == t.model(),
    decreases t,
{
    let ghost gt = t;
    match t {
        v1::Type::Primitive(p) => v2::Type::Primitive(p),
        v1::Type::Slice(e) => v2::Type::Slice(Box::new(type_1_to_2(*e))),
        v1::Type::Named { name, args } => {
            let ghost gargs = args;
            let mut args = args;
            let mut out: Vec<v2::Type> = Vec::new();
            while args.len() > 0
                invariant
                    out@.len() + args@.len() == gargs@.len(),
                    args@ == gargs@.subrange(out@.len() as int, gargs@.len() as int),
                    forall|j: int| 0 <= j < out@.len()
                        ==> (#[trigger] out@[j]).model() == gargs@[j].model(),
                    gt == t,
                    decreases_to!(gt => gargs),
                decreases args@.len(),
            {
                proof {
                    assert(decreases_to!(gargs => gargs@[out@.len() as int]));
                }
                let x = args.remove(0);
                assert(x == gargs@[out@.len() as int]);
                out.push(type_1_to_2(x));
                proof {
                    assert(args@ =~= gargs@.subrange(out@.len() as int, gargs@.len() as int));
                }
            }
            proof {
                v1::lemma_model_types(gargs@);
                v2::lemma_model_types(out@);
                assert(v2::model_types(out@) =~= v1::model_types(gargs@));
            }
            v2::Type::Named { name, args: out }
        },
    }
}

/// Migrates one declaration from version 1 to version 2: the mechanical
/// field-for-field copy through the lifters.
pub fn item_1_to_2(it: v1::Item) -> (r: v2::Item)
    ensures
        r.model() == it.model(),
{
    let docs = lift_option(it.docs, &lift_leaf::<String>);
    v2::Item { name: it.name, docs, ty: type_1_to_2(it.ty) }
}

/// Migrates a whole document from version 1 to version 2.
///
/// This step carries the hand-written breaking changes: the display name
/// moves from `title` to `name`, and absent tags become the empty sequence.
/// The declarations are copied mechanically through the mapping lifter.
pub fn crate_1_to_2(c: v1::Crate) -> (r: v2::Crate)
    requires
        c.wf(),
    ensures
        r.wf(),
        r.model() == spec_step(c.model(), 1),
{
    let ghost gc = c;
    let ghost mm = c.items.model();
    let v1::Crate { title, tags, items, extra } = c;
    let tags: Vec<String> = match tags {
        Option::Some(ts) => ts,
        Option::None => Vec::new(),
    };
    let (items, Ghost(ps)) = lift_strmap(
        items,
        &lift_leaf::<String>,
        &item_1_to_2,
        Ghost(|k: Seq<char>| k),
    );
    proof {
        assert(distinct_keys(ps)) by {
            assert(forall|i: int| 0 <= i < ps.len() ==> (#[trigger] ps[i]).0 == mm[i].0);
        }
        lemma_insert_all_of_distinct(ps);
        v1::lemma_model_items(mm);
        v2::lemma_model_items(ps);
        assert(v2::model_items(ps) =~= v1::model_items(mm));
    }
    let r = v2::Crate { name: title, tags, items, extra };
    proof {
        assert(r.model().tags == spec_step(gc.model(), 1).tags) by {
            if gc.tags is None {
                assert(r.tags.deep_view() =~= Seq::<Seq<char>>::empty());
            }
        }
    }
    r
}

/// Migrates a type expression from version 2 to version 3; the old variants
/// embed unchanged, and no old value maps onto the new inferred variant.
pub fn type_2_to_3(t: v2::Type) -> (r: v3::Type)
    ensures
        r.model() == t.model(),
    decreases t,
{
    let ghost gt = t;
    match t {
        v2::Type::Primitive(p) => v3::Type::Primitive(p),
        v2::Type::Slice(e) => v3::Type::Slice(Box::new(type_2_to_3(*e))),
        v2::Type::Named { name, args } => {
            let ghost gargs = args;
            let mut args = args;
            let mut out: Vec<v3::Type> = Vec::new();
            while args.len() > 0
                invariant
                    out@.len() + args@.len() == gargs@.len(),
                    args@ == gargs@.subrange(out@.len() as int, gargs@.len() as int),
                    forall|j: int| 0 <= j < out@.len()
                        ==> (#[trigger] out@[j]).model() == gargs@[j].model(),
                    gt == t,
                    decreases_to!(gt => gargs),
                decreases args@.len(),
            {
                proof {
                    assert(decreases_to!(gargs => gargs@[out@.len() as int]));
                }
                let x = args.remove(0);
                assert(x == gargs@[out@.len() as int]);
                out.push(type_2_to_3(x));
                proof {
                    assert(args@ =~= gargs@.subrange(out@.len() as int, gargs@.len() as int));
                }
            }
            proof {
                v2::lemma_model_types(gargs@);
                v3::lemma_model_types(out@);
                assert(v3::model_types(out@) =~= v2::model_types(gargs@));
            }
            v3::Type::Named { name, args: out }
        },
    }
}

/// Migrates one declaration from version 2 to version 3: the mechanical
/// field-for-field copy through the lifters.
pub fn item_2_to_3(it: v2::Item) -> (r: v3::Item)
    ensures
        r.model() == it.model(),
{
    let docs = lift_option(it.docs, &lift_leaf::<String>);
    v3::Item { name: it.name, docs, ty: type_2_to_3(it.ty) }
}

/// Migrates a whole document from version 2 to version 3.
///
/// Version 3 introduces the optional license notice; no version 2 document
/// carries one, so the field starts absent.  Everything else is copied
/// mechanically.
pub fn crate_2_to_3(c: v2::Crate) -> (r: v3::Crate)
    requires
        c.wf(),
    ensures
        r.wf(),
        r.model() == spec_step(c.model(), 2),
{
    let ghost gc = c;
    let ghost mm = c.items.model();
    let v2::Crate { name, tags, items, extra } = c;
    let (items, Ghost(ps)) = lift_strmap(
        items,
        &lift_leaf::<String>,
        &item_2_to_3,
        Ghost(|k: Seq<char>| k),
    );
    proof {
        assert(distinct_keys(ps)) by {
            assert(forall|i: int| 0 <= i < ps.len() ==> (#[trigger] ps[i]).0 == mm[i].0);
        }
        lemma_insert_all_of_distinct(ps);
        v2::lemma_model_items(mm);
        v3::lemma_model_items(ps);
        assert(v3::model_items(ps) =~= v2::model_items(mm));
    }
    v3::Crate { name, tags, items, extra, license: Option::None }
}

} // verus!
