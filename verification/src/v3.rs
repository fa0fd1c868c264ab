//! The schema type set at version 3, the newest supported version.
//!
//! Version 3 adds an optional license notice to the document and an
//! inferred-type variant to type expressions; no older value migrates onto
//! either, so the incoming migration needs no logic for them.

use vstd::prelude::*;
use crate::json::JsonValue;
use crate::model::{CrateModel, ItemModel, TypeModel};
use crate::strmap::StrMap;

verus! {

/// A type expression at version 3.
pub enum Type {
    Primitive(String),
    Slice(Box<Type>),
    Named { name: String, args: Vec<Type> },
    Infer,
}

impl Type {
    /// The model of this type expression.
    pub open spec fn model(self) -> TypeModel
        decreases self,
    {
        match self {
            Type::Primitive(p) => TypeModel::Primitive(p@),
            Type::Slice(e) => TypeModel::Slice(Box::new(e.model())),
            Type::Named { name, args } => TypeModel::Named(name@, model_types(args@)),
            Type::Infer => TypeModel::Infer,
        }
    }
}

/// The models of a sequence of type expressions, element by element.
pub open spec fn model_types(s: Seq<Type>) -> Seq<TypeModel>
    decreases s,
{
    if s.len() == 0 {
        Seq::empty()
    } else {
        seq![s[0].model()] + model_types(s.subrange(1, s.len() as int))
    }
}

/// `model_types` maps the sequence element by element.
pub proof fn lemma_model_types(s: Seq<Type>)
    ensures
        model_types(s).len() == s.len(),
        forall|i: int| 0 <= i < s.len() ==> model_types(s)[i] == s[i].model(),
    decreases s.len(),
{
    if s.len() > 0 {
        lemma_model_types(s.subrange(1, s.len() as int));
    }
}

/// One named declaration at version 3.
pub struct Item {
    pub name: String,
    pub docs: Option<String>,
    pub ty: Type,
}

impl Item {
    /// The model of this declaration.
    pub open spec fn model(self) -> ItemModel {
        ItemModel {
            name: self.name@,
            docs: match self.docs {
                Option::Some(d) => Option::Some(d@),
                Option::None => Option::None,
            },
            ty: self.ty.model(),
        }
    }
}

/// The models of a declaration map's entries, entry by entry.
pub open spec fn model_items(s: Seq<(Seq<char>, Item)>) -> Seq<(Seq<char>, ItemModel)>
    decreases s,
{
    if s.len() == 0 {
        Seq::empty()
    } else {
        seq![(s[0].0, s[0].1.model())] + model_items(s.subrange(1, s.len() as int))
    }
}

/// `model_items` maps the entries element by element and keeps the keys.
pub proof fn lemma_model_items(s: Seq<(Seq<char>, Item)>)
    ensures
        model_items(s).len() == s.len(),
        forall|i: int| 0 <= i < s.len()
            ==> model_items(s)[i] == (s[i].0, s[i].1.model()),
    decreases s.len(),
{
    if s.len() > 0 {
        lemma_model_items(s.subrange(1, s.len() as int));
    }
}

/// A whole document at version 3.
pub struct Crate {
    /// The display name; from version 2 on it lives under the `name` key.
    pub name: String,
    /// Classification tags; always present from version 2 on.
    pub tags: Vec<String>,
    /// The named declarations.
    pub items: StrMap<Item>,
    /// An opaque region, carried through unchanged.
    pub extra: Option<JsonValue>,
    /// An optional license notice, new at version 3.
    pub license: Option<String>,
}

impl Crate {
    /// The model of this document.
    pub open spec fn model(self) -> CrateModel {
        CrateModel {
            name: self.name@,
            tags: Option::Some(self.tags.deep_view()),
            items: model_items(self.items.model()),
            extra: match self.extra {
                Option::Some(e) => Option::Some(e.model()),
                Option::None => Option::None,
            },
            license: match self.license {
                Option::Some(l) => Option::Some(l@),
                Option::None => Option::None,
            },
        }
    }

    /// Well formed: the declaration keys are pairwise distinct.
    pub open spec fn wf(self) -> bool {
        self.items.wf()
    }
}

} // verus!
