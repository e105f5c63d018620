use super::function::{Function, FunctionModel};
use crate::util::text::{
    comes_before, lemma_before_chain, lemma_one_before, same_text, text_before,
};
use vstd::prelude::*;

verus! {

/// A module of native functions. The functions stand in the order of their
/// names, and no two have the same name.
#[derive(Debug)]
pub struct Module {
    pub name: String,
    pub functions: Vec<Function>,
}

/// The models of a list of functions, in order.
pub open spec fn functions_model(functions: &Vec<Function>) -> Seq<FunctionModel> {
    Seq::new(functions.len() as nat, |i: int| functions[i]@)
}

/// The place of the first function from `from` on whose name does not come
/// before `name`, or the number of functions when there is none.
pub open spec fn function_place(functions: Seq<FunctionModel>, name: Seq<char>, from: int) -> int
    decreases functions.len() - from,
{
    if 0 <= from < functions.len() {
        if !comes_before(functions[from].name, name) {
            from
        } else {
            function_place(functions, name, from + 1)
        }
    } else {
        functions.len() as int
    }
}

/// The functions after `function` is added: it takes the place of the
/// function of its name, or is put where its name stands in the order of
/// the names.
pub open spec fn with_function(functions: Seq<FunctionModel>, function: FunctionModel) -> Seq<
    FunctionModel,
> {
    let place = function_place(functions, function.name, 0);
    if place < functions.len() && functions[place].name == function.name {
        functions.update(place, function)
    } else {
        functions.insert(place, function)
    }
}

/// The names of the functions stand in the order of a dictionary, and no
/// name occurs twice.
pub open spec fn names_in_order(functions: Seq<FunctionModel>) -> bool {
    forall|i: int, j: int|
        0 <= i < j < functions.len() ==> comes_before(
            (#[trigger] functions[i]).name,
            (#[trigger] functions[j]).name,
        )
}

/// The place of a name lies behind the names that come before it and not
/// behind any other.
pub proof fn lemma_function_place(functions: Seq<FunctionModel>, name: Seq<char>, from: int)
    requires
        0 <= from <= functions.len(),
    ensures
        from <= function_place(functions, name, from) <= functions.len(),
        forall|i: int|
            from <= i < function_place(functions, name, from) ==> comes_before(
                (#[trigger] functions[i]).name,
                name,
            ),
        function_place(functions, name, from) < functions.len() ==> !comes_before(
            functions[function_place(functions, name, from)].name,
            name,
        ),
    decreases functions.len() - from,
{
    if from < functions.len() && comes_before(functions[from].name, name) {
        lemma_function_place(functions, name, from + 1);
    }
}

/// Functions that stand in the order of their names still do after one is
/// added.
pub proof fn lemma_with_function_in_order(functions: Seq<FunctionModel>, function: FunctionModel)
    requires
        names_in_order(functions),
    ensures
        names_in_order(with_function(functions, function)),
{
    let name = function.name;
    let place = function_place(functions, name, 0);
    let after = with_function(functions, function);
    lemma_function_place(functions, name, 0);
    if place < functions.len() && functions[place].name == name {
        assert forall|i: int, j: int| 0 <= i < j < after.len() implies comes_before(
            (#[trigger] after[i]).name,
            (#[trigger] after[j]).name,
        ) by {
            assert(after[i].name == functions[i].name);
            assert(after[j].name == functions[j].name);
        }
    } else {
        assert forall|i: int, j: int| 0 <= i < j < after.len() implies comes_before(
            (#[trigger] after[i]).name,
            (#[trigger] after[j]).name,
        ) by {
            if j < place {
                assert(after[i] == functions[i] && after[j] == functions[j]);
            } else if j == place {
                assert(after[i] == functions[i]);
            } else if i == place {
                assert(after[j] == functions[j - 1]);
                lemma_one_before(name, functions[place].name);
                if j - 1 > place {
                    assert(comes_before(functions[place].name, functions[j - 1].name));
                    lemma_before_chain(name, functions[place].name, functions[j - 1].name);
                }
            } else if i < place {
                assert(after[i] == functions[i] && after[j] == functions[j - 1]);
            } else {
                assert(after[i] == functions[i - 1] && after[j] == functions[j - 1]);
            }
        }
    }
}

impl Module {
    /// The functions of this module, in the order of their names.
    pub open spec fn functions(&self) -> Seq<FunctionModel> {
        functions_model(&self.functions)
    }

    /// The functions stand in the order of their names.
    pub open spec fn wf(&self) -> bool {
        names_in_order(self.functions())
    }

    /// A module without functions.
    pub fn new(name: String) -> (module: Module)
        ensures
            module.wf(),
            module.name@ == name@,
            module.functions() == Seq::<FunctionModel>::empty(),
    {
        let module = Module { name, functions: Vec::new() };
        assert(module.functions() =~= Seq::<FunctionModel>::empty());
        module
    }

    /// Adds a function under its name; a function of that name is replaced.
    #[verifier::loop_isolation(false)]
    pub fn add_function(&mut self, function: Function)
        ensures
            final(self).name == old(self).name,
            final(self).functions() == with_function(old(self).functions(), function@),
            old(self).wf() ==> final(self).wf(),
    {
        let ghost before = self.functions();
        let mut place: usize = 0;
        while place < self.functions.len() && text_before(
            self.functions[place].name.as_str(),
            function.name.as_str(),
        )
            invariant
                place <= self.functions.len(),
                self.functions() == before,
                function_place(before, function@.name, place as int) == function_place(
                    before,
                    function@.name,
                    0,
                ),
            decreases self.functions.len() - place,
        {
            place += 1;
        }
        proof {
            if names_in_order(before) {
                lemma_with_function_in_order(before, function@);
            }
        }
        if place < self.functions.len() && same_text(
            self.functions[place].name.as_str(),
            function.name.as_str(),
        ) {
            self.functions.set(place, function);
            assert(self.functions() =~= before.update(place as int, function@));
        } else {
            self.functions.insert(place, function);
            assert(self.functions() =~= before.insert(place as int, function@));
        }
    }

    /// The number of functions.
    pub fn function_count(&self) -> (count: usize)
        ensures
            count == self.functions().len(),
    {
        self.functions.len()
    }

    /// The function at a place.
    pub fn function_at(&self, place: usize) -> (function: &Function)
        requires
            place < self.functions().len(),
        ensures
            function@ == self.functions()[place as int],
    {
        &self.functions[place]
    }
}

} // verus!
