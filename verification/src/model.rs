//! The mathematical model of a document, shared by every schema version.
//!
//! Each version's executable types project into these model types; the
//! single-step migrations are specified here as total functions on models,
//! and the chain of steps from a source to a target version is their fold.

use vstd::prelude::*;
use crate::json::JsonModel;
use crate::version::version_supported;

verus! {

/// The model of a type expression.
pub enum TypeModel {
    /// A primitive type, by name.
    Primitive(Seq<char>),
    /// A slice of an element type, owned through indirection.
    Slice(Box<TypeModel>),
    /// A named type with type arguments.
    Named(Seq<char>, Seq<TypeModel>),
    /// An inferred type; it first exists at the newest version and no older
    /// value migrates onto it.
    Infer,
}

/// The model of one named declaration.
#[verifier::ext_equal]
pub struct ItemModel {
    pub name: Seq<char>,
    pub docs: Option<Seq<char>>,
    pub ty: TypeModel,
}

/// The model of a whole document.
#[verifier::ext_equal]
pub struct CrateModel {
    /// The document's display name.
    pub name: Seq<char>,
    /// Classification tags; absent and empty are distinct at the oldest
    /// version, later versions always carry the sequence.
    pub tags: Option<Seq<Seq<char>>>,
    /// The named declarations, in document order, keys pairwise distinct.
    pub items: Seq<(Seq<char>, ItemModel)>,
    /// An opaque region carried through migration unchanged.
    pub extra: Option<JsonModel>,
    /// A license notice; the field first exists at the newest version.
    pub license: Option<Seq<char>>,
}

/// One migration step on models, from version `v` to `v + 1`.
///
/// The step from the oldest version renames nothing at the model level and
/// fills absent tags with the empty sequence; the step to the newest version
/// introduces the license field with its default of absence.  Every other
/// part of the document — names, docs, type trees, the opaque region — is
/// carried through unchanged.
pub open spec fn spec_step(c: CrateModel, v: int) -> CrateModel {
    if v == 1 {
        CrateModel {
            tags: match c.tags {
                Option::Some(ts) => Option::Some(ts),
                Option::None => Option::Some(Seq::empty()),
            },
            ..c
        }
    } else {
        // The remaining steps add fields or variants that no old value
        // maps onto, so the model is unchanged.
        c
    }
}

/// The chained migration on models from version `s` up to version `t`.
pub open spec fn spec_chain(c: CrateModel, s: int, t: int) -> CrateModel
    decreases t - s,
{
    if s >= t {
        c
    } else {
        spec_chain(spec_step(c, s), s + 1, t)
    }
}

/// Chaining composes: migrating from `s` to `t` in one run gives the same
/// model as migrating from `s` to a stopover `u` and then from `u` to `t`.
pub proof fn lemma_chain_compose(c: CrateModel, s: int, u: int, t: int)
    requires
        s <= u <= t,
    ensures
        spec_chain(c, s, t) == spec_chain(spec_chain(c, s, u), u, t),
    decreases u - s,
{
    if s < u {
        lemma_chain_compose(spec_step(c, s), s + 1, u, t);
    }
}

/// Primitive leaves survive the whole chain: the document name, the
/// declarations with their names, docs and type trees, the opaque region,
/// and any tags that were present are all carried through bit for bit.
pub proof fn lemma_chain_preserves_leaves(c: CrateModel, s: int, t: int)
    requires
        s <= t,
    ensures
        spec_chain(c, s, t).name == c.name,
        spec_chain(c, s, t).items == c.items,
        spec_chain(c, s, t).extra == c.extra,
        spec_chain(c, s, t).license == c.license,
        c.tags matches Option::Some(ts) ==> spec_chain(c, s, t).tags == Option::Some(ts),
        s > 1 ==> spec_chain(c, s, t).tags == c.tags,
    decreases t - s,
{
    if s < t {
        lemma_chain_preserves_leaves(spec_step(c, s), s + 1, t);
    }
}

/// A model is well formed when its declaration keys are pairwise distinct
/// and each entry's declared name is its key.
pub open spec fn crate_wf(c: CrateModel) -> bool {
    &&& crate::strmap::distinct_keys(c.items)
}

/// Well formed at a version: versions after the oldest always carry the tag
/// sequence, and only the newest version may carry a license.
pub open spec fn crate_wf_at(c: CrateModel, v: int) -> bool {
    &&& crate_wf(c)
    &&& v > 1 ==> c.tags is Some
    &&& v < 3 ==> c.license is None
}

/// A type expression expressible at version `v`: the inferred type exists
/// only at the newest version.
pub open spec fn type_ok_at(t: TypeModel, v: int) -> bool
    decreases t,
{
    match t {
        TypeModel::Primitive(_) => true,
        TypeModel::Slice(e) => type_ok_at(*e, v),
        TypeModel::Named(_, args) => types_ok_at(args, v),
        TypeModel::Infer => v == 3,
    }
}

/// Every type of the sequence is expressible at version `v`.
pub open spec fn types_ok_at(ts: Seq<TypeModel>, v: int) -> bool
    decreases ts,
{
    if ts.len() == 0 {
        true
    } else {
        type_ok_at(ts[0], v) && types_ok_at(ts.subrange(1, ts.len() as int), v)
    }
}

/// Every declaration's type is expressible at version `v`.
pub open spec fn items_ok_at(items: Seq<(Seq<char>, ItemModel)>, v: int) -> bool {
    forall|i: int| 0 <= i < items.len() ==> type_ok_at((#[trigger] items[i]).1.ty, v)
}

/// Expressible at version `v`: well formed there, and every type in the
/// document exists at that version.
pub open spec fn crate_ok_at(c: CrateModel, v: int) -> bool {
    &&& crate_wf_at(c, v)
    &&& items_ok_at(c.items, v)
}

/// What is expressible at a version stays expressible at the next.
pub proof fn lemma_type_ok_monotone(t: TypeModel, v: int, w: int)
    requires
        type_ok_at(t, v),
        v <= w <= 3,
    ensures
        type_ok_at(t, w),
    decreases t,
{
    match t {
        TypeModel::Primitive(_) => {},
        TypeModel::Slice(e) => {
            lemma_type_ok_monotone(*e, v, w);
        },
        TypeModel::Named(_, args) => {
            lemma_types_ok_monotone(args, v, w);
        },
        TypeModel::Infer => {},
    }
}

/// What is expressible at a version stays expressible at the next.
pub proof fn lemma_types_ok_monotone(ts: Seq<TypeModel>, v: int, w: int)
    requires
        types_ok_at(ts, v),
        v <= w <= 3,
    ensures
        types_ok_at(ts, w),
    decreases ts,
{
    if ts.len() > 0 {
        lemma_type_ok_monotone(ts[0], v, w);
        lemma_types_ok_monotone(ts.subrange(1, ts.len() as int), v, w);
    }
}

/// One step keeps the document expressible; the chain follows by
/// induction.
pub proof fn lemma_chain_ok(c: CrateModel, s: int, t: int)
    requires
        crate_ok_at(c, s),
        version_supported(s),
        version_supported(t),
        s <= t,
    ensures
        crate_ok_at(spec_chain(c, s, t), t),
    decreases t - s,
{
    if s < t {
        lemma_step_wf(c, s);
        assert(spec_step(c, s).items == c.items);
        assert(forall|i: int| 0 <= i < c.items.len()
            ==> type_ok_at((#[trigger] c.items[i]).1.ty, s + 1)) by {
            assert forall|i: int| 0 <= i < c.items.len() implies type_ok_at(
                (#[trigger] c.items[i]).1.ty,
                s + 1,
            ) by {
                lemma_type_ok_monotone(c.items[i].1.ty, s, s + 1);
            }
        }
        lemma_chain_ok(spec_step(c, s), s + 1, t);
    }
}

/// One step takes a document well formed at `v` to one well formed at
/// `v + 1`; together with the step functions being total, no document is
/// ever stuck between versions.
pub proof fn lemma_step_wf(c: CrateModel, v: int)
    requires
        crate_wf_at(c, v),
        version_supported(v),
        v < 3,
    ensures
        crate_wf_at(spec_step(c, v), v + 1),
{
}

} // verus!
