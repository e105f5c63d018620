use crate::api::function::Function;
use crate::artifact::Artifact;
use vstd::prelude::*;

verus! {

/// The compiled artifact: the bytecode, the label of each function by its
/// canonical name, the offset in the bytecode of each label, the native
/// functions by label, and the range of bytes of each static slot.
#[derive(Debug)]
pub struct Output {
    pub code: Vec<u8>,
    pub function_name_map: Vec<(String, u64)>,
    pub functions: Vec<(u64, usize)>,
    pub foreign_functions: Vec<(u64, Function)>,
    pub static_pointers: Vec<(usize, (usize, usize))>,
}

impl Artifact for Output {

}

/// The names and labels of a list, in order.
pub open spec fn names_model(names: &Vec<(String, u64)>) -> Seq<(Seq<char>, u64)> {
    Seq::new(names.len() as nat, |i: int| (names[i].0@, names[i].1))
}

/// The place of the first entry named `name` from `from` on, or the number
/// of entries when there is none.
pub open spec fn name_place(names: Seq<(Seq<char>, u64)>, name: Seq<char>, from: int) -> int
    decreases names.len() - from,
{
    if 0 <= from < names.len() {
        if names[from].0 == name {
            from
        } else {
            name_place(names, name, from + 1)
        }
    } else {
        names.len() as int
    }
}

/// The place of the first entry with the label `label` from `from` on, or
/// the number of entries when there is none.
pub open spec fn offset_place(offsets: Seq<(u64, usize)>, label: u64, from: int) -> int
    decreases offsets.len() - from,
{
    if 0 <= from < offsets.len() {
        if offsets[from].0 == label {
            from
        } else {
            offset_place(offsets, label, from + 1)
        }
    } else {
        offsets.len() as int
    }
}

impl Output {
    /// An artifact without code.
    pub fn new() -> (output: Output)
        ensures
            output.code@.len() == 0,
            output.function_name_map@.len() == 0,
            output.functions@.len() == 0,
            output.foreign_functions@.len() == 0,
            output.static_pointers@.len() == 0,
    {
        Output {
            code: Vec::new(),
            functions: Vec::new(),
            function_name_map: Vec::new(),
            foreign_functions: Vec::new(),
            static_pointers: Vec::new(),
        }
    }

    /// This artifact with the bytecode `code`.
    pub fn with_code(self, code: Vec<u8>) -> (output: Output)
        ensures
            output.code == code,
            output.function_name_map == self.function_name_map,
            output.functions == self.functions,
            output.foreign_functions == self.foreign_functions,
            output.static_pointers == self.static_pointers,
    {
        let mut output = self;
        output.code = code;
        output
    }

    /// This artifact with the offsets `functions` of its labels.
    pub fn with_functions(self, functions: Vec<(u64, usize)>) -> (output: Output)
        ensures
            output.code == self.code,
            output.function_name_map == self.function_name_map,
            output.functions == functions,
            output.foreign_functions == self.foreign_functions,
            output.static_pointers == self.static_pointers,
    {
        let mut output = self;
        output.functions = functions;
        output
    }

    /// This artifact with the labels `names` of its functions.
    pub fn with_function_names(self, names: Vec<(String, u64)>) -> (output: Output)
        ensures
            output.code == self.code,
            output.function_name_map == names,
            output.functions == self.functions,
            output.foreign_functions == self.foreign_functions,
            output.static_pointers == self.static_pointers,
    {
        let mut output = self;
        output.function_name_map = names;
        output
    }

    /// This artifact with the ranges `static_pointers` of its static slots.
    pub fn with_static_pointers(self, static_pointers: Vec<(usize, (usize, usize))>) -> (output:
        Output)
        ensures
            output.code == self.code,
            output.function_name_map == self.function_name_map,
            output.functions == self.functions,
            output.foreign_functions == self.foreign_functions,
            output.static_pointers == static_pointers,
    {
        let mut output = self;
        output.static_pointers = static_pointers;
        output
    }

    /// The number of bytes of the bytecode.
    pub fn get_size(&self) -> (size: usize)
        ensures
            size == self.code@.len(),
    {
        self.code.len()
    }

    /// The label of the function with the canonical name `name`.
    #[verifier::loop_isolation(false)]
    pub fn get_label(&self, name: &str) -> (label: Option<u64>)
        ensures
            label is Some <==> name_place(names_model(&self.function_name_map), name@, 0)
                < self.function_name_map.len(),
            label matches Some(found) ==> found == names_model(
                &self.function_name_map,
            )[name_place(names_model(&self.function_name_map), name@, 0)].1,
    {
        let ghost names = names_model(&self.function_name_map);
        let mut place: usize = 0;
        while place < self.function_name_map.len() && !crate::util::text::same_text(
            self.function_name_map[place].0.as_str(),
            name,
        )
            invariant
                place <= self.function_name_map.len(),
                name_place(names, name@, place as int) == name_place(names, name@, 0),
            decreases self.function_name_map.len() - place,
        {
            place += 1;
        }
        if place < self.function_name_map.len() {
            Some(self.function_name_map[place].1)
        } else {
            None
        }
    }

    /// The offset in the bytecode of the function with the label `label`.
    #[verifier::loop_isolation(false)]
    pub fn get_offset(&self, label: u64) -> (offset: Option<usize>)
        ensures
            offset is Some <==> offset_place(self.functions@, label, 0) < self.functions.len(),
            offset matches Some(found) ==> found == self.functions@[offset_place(
                self.functions@,
                label,
                0,
            )].1,
    {
        let mut place: usize = 0;
        while place < self.functions.len() && self.functions[place].0 != label
            invariant
                place <= self.functions.len(),
                offset_place(self.functions@, label, place as int) == offset_place(
                    self.functions@,
                    label,
                    0,
                ),
            decreases self.functions.len() - place,
        {
            place += 1;
        }
        if place < self.functions.len() {
            Some(self.functions[place].1)
        } else {
            None
        }
    }
}

} // verus!
