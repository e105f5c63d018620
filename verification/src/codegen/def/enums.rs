use crate::parser::ast::{
    fields_model, types_model, variants_model, Declaration, EnumVariant, EnumVariantModel, Type,
};
use vstd::prelude::*;

verus! {

/// A declared enum.
#[derive(Debug)]
pub struct EnumDef {
    pub name: String,
    pub variants: Vec<EnumVariantDef>,
}

/// A variant of a declared enum.
#[derive(Debug)]
pub enum EnumVariantDef {
    Empty { name: String },
    Tuple { name: String, types: Vec<Type> },
    /// A variant with named members; no name occurs twice.
    Cont { name: String, members: Vec<(String, Type)> },
}

impl View for EnumVariantDef {
    type V = EnumVariantModel;

    open spec fn view(&self) -> EnumVariantModel {
        match self {
            EnumVariantDef::Empty { name } => EnumVariantModel::Empty(name@),
            EnumVariantDef::Tuple { name, types } => EnumVariantModel::Tuple(
                name@,
                types_model(types),
            ),
            EnumVariantDef::Cont { name, members } => EnumVariantModel::Cont(
                name@,
                fields_model(members),
            ),
        }
    }
}

/// The models of a list of variant definitions, in order.
pub open spec fn variant_defs_model(variants: &Vec<EnumVariantDef>) -> Seq<EnumVariantModel> {
    Seq::new(variants.len() as nat, |i: int| variants[i]@)
}

impl EnumVariantDef {
    /// The definition of a variant of an enum declaration.
    pub fn from(enum_variant: EnumVariant) -> (def: EnumVariantDef)
        ensures
            def@ == enum_variant@,
    {
        match enum_variant {
            EnumVariant::Empty(name) => EnumVariantDef::Empty { name },
            EnumVariant::Cont(name, members) => EnumVariantDef::Cont { name, members },
            EnumVariant::Tuple(name, types) => EnumVariantDef::Tuple { name, types },
        }
    }
}

impl EnumDef {
    /// The definition of an enum declaration.
    pub fn from(enum_decl: Declaration) -> (def: EnumDef)
        requires
            enum_decl is Enum,
        ensures
            enum_decl matches Declaration::Enum { name, variants } && def.name@ == name@
                && variant_defs_model(&def.variants) == variants_model(&variants),
    {
        match enum_decl {
            Declaration::Enum { name, variants } => {
                let ghost all = variants_model(&variants);
                let mut variants = variants;
                let mut defs: Vec<EnumVariantDef> = Vec::new();
                // The variants are taken from the back and put in front of
                // the definitions that are there.
                while variants.len() > 0
                    invariant
                        variants_model(&variants) + variant_defs_model(&defs) == all,
                    decreases variants.len(),
                {
                    let ghost left = variants_model(&variants);
                    let ghost done = variant_defs_model(&defs);
                    match variants.pop() {
                        Some(variant) => {
                            let ghost model = variant@;
                            defs.insert(0, EnumVariantDef::from(variant));
                            assert(variants_model(&variants) =~= left.drop_last());
                            assert(variant_defs_model(&defs) =~= seq![model] + done);
                            assert(left.drop_last() + (seq![model] + done) =~= left + done);
                        },
                        None => {},
                    }
                }
                assert(variants_model(&variants) =~= Seq::empty());
                assert(variant_defs_model(&defs) =~= all);
                EnumDef { name, variants: defs }
            },
            _ => EnumDef { name: String::new(), variants: Vec::new() },
        }
    }
}

} // verus!
