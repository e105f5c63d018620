use vstd::prelude::*;

verus! {

/// The type of an argument or of the result of a native function.
#[derive(Debug)]
pub enum Type {
    Void,
    Int,
    Float,
    Bool,
    Str,
    Named(String),
    Ref(Box<Type>),
}

/// The model of a [`Type`].
pub enum ApiTypeModel {
    Void,
    Int,
    Float,
    Bool,
    Str,
    Named(Seq<char>),
    Ref(Box<ApiTypeModel>),
}

impl Type {
    /// The model of this type.
    pub open spec fn model(&self) -> ApiTypeModel
        decreases self,
    {
        match self {
            Type::Void => ApiTypeModel::Void,
            Type::Int => ApiTypeModel::Int,
            Type::Float => ApiTypeModel::Float,
            Type::Bool => ApiTypeModel::Bool,
            Type::Str => ApiTypeModel::Str,
            Type::Named(name) => ApiTypeModel::Named(name@),
            Type::Ref(inner) => ApiTypeModel::Ref(Box::new(inner.model())),
        }
    }

    /// A copy of this type.
    pub fn duplicate(&self) -> (copy: Type)
        ensures
            copy@ == self@,
        decreases self,
    {
        match self {
            Type::Void => Type::Void,
            Type::Int => Type::Int,
            Type::Float => Type::Float,
            Type::Bool => Type::Bool,
            Type::Str => Type::Str,
            Type::Named(name) => Type::Named(name.clone()),
            Type::Ref(inner) => Type::Ref(Box::new(inner.duplicate())),
        }
    }

    /// Whether this type and `other` are the same type.
    pub fn same(&self, other: &Type) -> (same: bool)
        ensures
            same == (self@ == other@),
        decreases self,
    {
        match self {
            Type::Void => match other {
                Type::Void => true,
                _ => false,
            },
            Type::Int => match other {
                Type::Int => true,
                _ => false,
            },
            Type::Float => match other {
                Type::Float => true,
                _ => false,
            },
            Type::Bool => match other {
                Type::Bool => true,
                _ => false,
            },
            Type::Str => match other {
                Type::Str => true,
                _ => false,
            },
            Type::Named(name) => match other {
                Type::Named(other_name) => *name == *other_name,
                _ => false,
            },
            Type::Ref(inner) => match other {
                Type::Ref(other_inner) => inner.same(other_inner),
                _ => false,
            },
        }
    }
}

impl View for Type {
    type V = ApiTypeModel;

    open spec fn view(&self) -> ApiTypeModel {
        self.model()
    }
}

impl Clone for Type {
    fn clone(&self) -> (copy: Self)
        ensures
            copy@ == self@,
    {
        self.duplicate()
    }
}

impl PartialEq for Type {
    fn eq(&self, other: &Self) -> (same: bool) {
        self.same(other)
    }
}

impl vstd::std_specs::cmp::PartialEqSpecImpl for Type {
    open spec fn obeys_eq_spec() -> bool {
        true
    }

    open spec fn eq_spec(&self, other: &Self) -> bool {
        self@ == other@
    }
}

/// The models of a list of types, in order.
pub open spec fn api_types_model(types: &Vec<Type>) -> Seq<ApiTypeModel> {
    Seq::new(types.len() as nat, |i: int| types[i]@)
}

/// A copy of a list of types.
pub fn duplicate_api_types(types: &Vec<Type>) -> (copies: Vec<Type>)
    ensures
        api_types_model(&copies) == api_types_model(types),
{
    let mut copies: Vec<Type> = Vec::new();
    let mut i: usize = 0;
    while i < types.len()
        invariant
            i <= types.len(),
            copies.len() == i,
            forall|j: int| 0 <= j < i ==> copies[j]@ == types[j]@,
        decreases types.len() - i,
    {
        let copy = types[i].duplicate();
        copies.push(copy);
        i += 1;
    }
    assert(api_types_model(&copies) =~= api_types_model(types));
    copies
}

} // verus!
