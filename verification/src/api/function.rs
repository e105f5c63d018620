use super::var_type::{api_types_model, duplicate_api_types, ApiTypeModel, Type};
use vstd::prelude::*;

verus! {

/// A native function as the language sees it: its name, the types of its
/// arguments and of its result, and the sizes of its arguments on the
/// stack.
#[derive(Debug)]
pub struct Function {
    pub name: String,
    pub args: Vec<Type>,
    pub returns: Type,
    /// The sizes of the arguments on the stack; empty until they are set.
    pub arg_sizes: Vec<usize>,
}

/// The model of a [`Function`].
pub struct FunctionModel {
    pub name: Seq<char>,
    pub args: Seq<ApiTypeModel>,
    pub returns: ApiTypeModel,
    pub arg_sizes: Seq<usize>,
}

/// The sum of the sizes from `from` on.
pub open spec fn sizes_from(sizes: Seq<usize>, from: int) -> int
    decreases sizes.len() - from,
{
    if 0 <= from < sizes.len() {
        sizes[from] + sizes_from(sizes, from + 1)
    } else {
        0
    }
}

/// The offset of an argument from the frame base: the arguments lie below
/// it, the last one nearest, so the offset is the negated sum of the sizes
/// of the argument and of those behind it.
pub open spec fn arg_offset(sizes: Seq<usize>, arg_index: int) -> int {
    -sizes_from(sizes, arg_index)
}

impl View for Function {
    type V = FunctionModel;

    open spec fn view(&self) -> FunctionModel {
        FunctionModel {
            name: self.name@,
            args: api_types_model(&self.args),
            returns: self.returns@,
            arg_sizes: self.arg_sizes@,
        }
    }
}

impl Function {
    /// A native function without argument sizes.
    pub fn new(name: String, args: Vec<Type>, returns: Type) -> (function: Function)
        ensures
            function@ == (FunctionModel {
                name: name@,
                args: api_types_model(&args),
                returns: returns@,
                arg_sizes: Seq::empty(),
            }),
    {
        Function { name, args, arg_sizes: Vec::new(), returns }
    }

    /// A copy of this function.
    pub fn duplicate(&self) -> (copy: Function)
        ensures
            copy@ == self@,
    {
        let mut arg_sizes: Vec<usize> = Vec::new();
        let mut i: usize = 0;
        while i < self.arg_sizes.len()
            invariant
                i <= self.arg_sizes.len(),
                arg_sizes@ == self.arg_sizes@.take(i as int),
            decreases self.arg_sizes.len() - i,
        {
            arg_sizes.push(self.arg_sizes[i]);
            assert(arg_sizes@ =~= self.arg_sizes@.take(i + 1));
            i += 1;
        }
        assert(arg_sizes@ =~= self.arg_sizes@);
        Function {
            name: self.name.clone(),
            args: duplicate_api_types(&self.args),
            arg_sizes,
            returns: self.returns.duplicate(),
        }
    }

    /// Sets the sizes of the arguments on the stack.
    pub fn set_arg_sizes(&mut self, arg_sizes: Vec<usize>)
        ensures
            final(self)@ == (FunctionModel { arg_sizes: arg_sizes@, ..old(self)@ }),
    {
        self.arg_sizes = arg_sizes;
    }

    /// Whether `get_arg_offset` may be called with `arg_index`.
    pub open spec fn offset_known(&self, arg_index: usize) -> bool {
        self@.args.len() == self@.arg_sizes.len() && arg_index < self@.arg_sizes.len()
            && sizes_from(self@.arg_sizes, arg_index as int) <= 0x8000_0000
    }

    /// The offset of an argument from the frame base.
    pub fn get_arg_offset(&self, arg_index: usize) -> (offset: i32)
        requires
            self.offset_known(arg_index),
        ensures
            offset == arg_offset(self@.arg_sizes, arg_index as int),
    {
        let mut offset: i64 = 0;
        let mut index = self.arg_sizes.len();
        proof {
            lemma_sizes_from_grows(self.arg_sizes@, arg_index as int, index as int);
        }
        while index > arg_index
            invariant
                arg_index <= index <= self.arg_sizes.len(),
                offset == -sizes_from(self.arg_sizes@, index as int),
                sizes_from(self.arg_sizes@, arg_index as int) <= 0x8000_0000,
                0 <= sizes_from(self.arg_sizes@, index as int) <= sizes_from(
                    self.arg_sizes@,
                    arg_index as int,
                ),
            decreases index,
        {
            proof {
                lemma_sizes_from_grows(self.arg_sizes@, arg_index as int, index - 1);
            }
            index -= 1;
            offset = offset - self.arg_sizes[index] as i64;
        }
        offset as i32
    }

    /// The offset of an argument from the frame base, if it is known.
    pub fn arg_offset_of(&self, arg_index: usize) -> (offset: Option<i32>)
        ensures
            offset is Some <==> self.offset_known(arg_index),
            offset matches Some(value) ==> value == arg_offset(self@.arg_sizes, arg_index as int),
    {
        if self.args.len() != self.arg_sizes.len() || arg_index >= self.arg_sizes.len() {
            return None;
        }
        let mut total: u64 = 0;
        let mut index = self.arg_sizes.len();
        while index > arg_index
            invariant
                arg_index <= index <= self.arg_sizes.len(),
                total == sizes_from(self.arg_sizes@, index as int),
                total <= 0x8000_0000,
            decreases index,
        {
            proof {
                lemma_sizes_from_grows(self.arg_sizes@, arg_index as int, index - 1);
            }
            index -= 1;
            let size = self.arg_sizes[index];
            if size as u64 > 0x8000_0000 - total {
                return None;
            }
            total = total + size as u64;
        }
        Some(self.get_arg_offset(arg_index))
    }

    /// The size of an argument on the stack.
    pub fn get_arg_size(&self, arg_index: usize) -> (size: usize)
        requires
            arg_index < self@.arg_sizes.len(),
        ensures
            size == self@.arg_sizes[arg_index as int],
    {
        self.arg_sizes[arg_index]
    }
}

/// The sum of the sizes from a position on is at least the sum from any
/// later position on.
pub proof fn lemma_sizes_from_grows(sizes: Seq<usize>, from: int, later: int)
    requires
        0 <= from <= later <= sizes.len(),
    ensures
        0 <= sizes_from(sizes, later) <= sizes_from(sizes, from),
    decreases sizes.len() - from,
{
    if from < later {
        lemma_sizes_from_grows(sizes, from + 1, later);
    } else {
        lemma_sizes_nonnegative(sizes, later);
    }
}

/// A sum of sizes is not negative.
pub proof fn lemma_sizes_nonnegative(sizes: Seq<usize>, from: int)
    ensures
        0 <= sizes_from(sizes, from),
    decreases sizes.len() - from,
{
    if 0 <= from < sizes.len() {
        lemma_sizes_nonnegative(sizes, from + 1);
    }
}

} // verus!
