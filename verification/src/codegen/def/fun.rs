use crate::api::function::{Function};
use crate::api::var_type::{ApiTypeModel, Type as ApiType};
use crate::parser::ast::{
    duplicate_fields, fields_model, Declaration, DeclarationModel, Type, TypeModel,
};
use vstd::prelude::*;

verus! {

/// A declared function.
#[derive(Debug)]
pub struct FunctionDef {
    pub label_uid: u64,
    pub name: String,
    pub canon_name: String,
    pub returns: Type,
    pub arguments: Vec<(String, Type)>,
}

/// The model of a [`FunctionDef`].
pub struct FunctionDefModel {
    pub label_uid: u64,
    pub name: Seq<char>,
    pub canon_name: Seq<char>,
    pub returns: TypeModel,
    pub arguments: Seq<(Seq<char>, TypeModel)>,
}

impl View for FunctionDef {
    type V = FunctionDefModel;

    open spec fn view(&self) -> FunctionDefModel {
        FunctionDefModel {
            label_uid: self.label_uid,
            name: self.name@,
            canon_name: self.canon_name@,
            returns: self.returns@,
            arguments: fields_model(&self.arguments),
        }
    }
}

/// The type of the language that a type of a native function is.
pub open spec fn converted(api_type: ApiTypeModel) -> TypeModel
    decreases api_type,
{
    match api_type {
        ApiTypeModel::Bool => TypeModel::Bool,
        ApiTypeModel::Void => TypeModel::Void,
        ApiTypeModel::Float => TypeModel::Float,
        ApiTypeModel::Int => TypeModel::Int,
        ApiTypeModel::Str => TypeModel::Str,
        ApiTypeModel::Named(name) => TypeModel::Named(name),
        ApiTypeModel::Ref(inner) => TypeModel::Ref(Box::new(converted(*inner))),
    }
}

/// The arguments of a native function as arguments without names.
pub open spec fn converted_arguments(args: Seq<ApiTypeModel>) -> Seq<(Seq<char>, TypeModel)> {
    Seq::new(args.len(), |i: int| (Seq::<char>::empty(), converted(args[i])))
}

/// The definition that a function declaration gives, with the given label
/// and under the given module path.
pub open spec fn definition_of(
    label_uid: u64,
    mod_path: Seq<char>,
    decl: DeclarationModel,
) -> Result<FunctionDefModel, ()> {
    match decl {
        DeclarationModel::Function { name, returns: return_type, arguments, .. } => Ok(
            FunctionDefModel {
                label_uid,
                name,
                canon_name: mod_path + name,
                returns: return_type,
                arguments,
            },
        ),
        _ => Err(()),
    }
}

/// The type of the language that a type of a native function is, with the
/// very names of that type.
pub open spec fn type_from(api_type: ApiType) -> Type
    decreases api_type,
{
    match api_type {
        ApiType::Bool => Type::Bool,
        ApiType::Void => Type::Void,
        ApiType::Float => Type::Float,
        ApiType::Int => Type::Int,
        ApiType::Str => Type::Str,
        ApiType::Named(name) => Type::Named(name),
        ApiType::Ref(inner) => Type::Ref(Box::new(type_from(*inner))),
    }
}

/// The model of the converted type is the converted model.
pub proof fn lemma_type_from(api_type: ApiType)
    ensures
        type_from(api_type)@ == converted(api_type@),
    decreases api_type,
{
    match api_type {
        ApiType::Ref(inner) => {
            lemma_type_from(*inner);
        },
        _ => {},
    }
}

impl From<ApiType> for Type {
    fn from(api_type: ApiType) -> (converted_type: Type) {
        convert_type(&api_type)
    }
}

impl vstd::std_specs::convert::FromSpecImpl<ApiType> for Type {
    open spec fn obeys_from_spec() -> bool {
        true
    }

    open spec fn from_spec(api_type: ApiType) -> Type {
        type_from(api_type)
    }
}

/// The type of the language that a type of a native function is.
pub fn convert_type(api_type: &ApiType) -> (converted_type: Type)
    ensures
        converted_type == type_from(*api_type),
        converted_type@ == converted(api_type@),
    decreases api_type,
{
    proof {
        lemma_type_from(*api_type);
    }
    match api_type {
        ApiType::Bool => Type::Bool,
        ApiType::Void => Type::Void,
        ApiType::Float => Type::Float,
        ApiType::Int => Type::Int,
        ApiType::Str => Type::Str,
        ApiType::Named(name) => Type::Named(name.clone()),
        ApiType::Ref(inner) => Type::Ref(Box::new(convert_type(inner))),
    }
}

impl FunctionDef {
    /// The definition of a function declaration.
    pub fn from_decl(label_uid: u64, mod_path: &str, decl: &Declaration) -> (def: Result<
        FunctionDef,
        (),
    >)
        ensures
            match def {
                Ok(def) => Ok(def@),
                Err(error) => Err(error),
            } == definition_of(label_uid, mod_path@, decl@),
    {
        match decl {
            Declaration::Function { name, returns: return_type, arguments, .. } => Ok(
                FunctionDef {
                    label_uid,
                    name: name.clone(),
                    returns: return_type.duplicate(),
                    canon_name: String::from_str(mod_path).concat(name.as_str()),
                    arguments: duplicate_fields(arguments),
                },
            ),
            _ => Err(()),
        }
    }

    /// The definition of a native function.
    pub fn from_api(label_uid: u64, mod_path: &str, api_fun: Function) -> (def: FunctionDef)
        ensures
            def@ == (FunctionDefModel {
                label_uid,
                name: api_fun@.name,
                canon_name: mod_path@ + api_fun@.name,
                returns: converted(api_fun@.returns),
                arguments: converted_arguments(api_fun@.args),
            }),
    {
        let mut arguments: Vec<(String, Type)> = Vec::new();
        let mut i: usize = 0;
        while i < api_fun.args.len()
            invariant
                i <= api_fun.args.len(),
                fields_model(&arguments) == converted_arguments(api_fun@.args).take(i as int),
            decreases api_fun.args.len() - i,
        {
            let ghost before = fields_model(&arguments);
            let argument = (String::new(), convert_type(&api_fun.args[i]));
            let ghost added = (argument.0@, argument.1@);
            arguments.push(argument);
            assert(fields_model(&arguments) =~= before.push(added));
            assert(fields_model(&arguments) =~= converted_arguments(api_fun@.args).take(i + 1));
            i += 1;
        }
        assert(fields_model(&arguments) =~= converted_arguments(api_fun@.args));
        FunctionDef {
            label_uid,
            name: api_fun.name.clone(),
            canon_name: String::from_str(mod_path).concat(api_fun.name.as_str()),
            returns: convert_type(&api_fun.returns),
            arguments,
        }
    }

    /// A copy of this definition.
    pub fn duplicate(&self) -> (copy: FunctionDef)
        ensures
            copy@ == self@,
    {
        FunctionDef {
            label_uid: self.label_uid,
            name: self.name.clone(),
            canon_name: self.canon_name.clone(),
            returns: self.returns.duplicate(),
            arguments: duplicate_fields(&self.arguments),
        }
    }
}

impl Clone for FunctionDef {
    fn clone(&self) -> (copy: Self)
        ensures
            copy@ == self@,
    {
        self.duplicate()
    }
}

} // verus!
