use crate::parser::ast::Type;
use vstd::prelude::*;

verus! {

/// A declared container: its names and, for each member, its offset inside
/// the container and its type. No member name occurs twice.
#[derive(Debug)]
pub struct ContDef {
    pub name: String,
    pub canon_name: String,
    pub members: Vec<(String, u64, Type)>,
}

} // verus!
