//! The declaration pass: it gives every function its label and builds the
//! tree of module definitions.

use super::def::fun::{definition_of, FunctionDef, FunctionDefModel};
use super::def::module::{
    lemma_def_place, lemma_module_place, module_defs_model, well_formed, with_def, with_module,
    ModuleDef, ModuleDefModel,
};
use crate::parser::ast::{declarations_model, Declaration, DeclarationModel};
use vstd::prelude::*;

verus! {

/// The declaration pass over a list of declarations.
pub struct Declarator {
    mod_def_stack: Vec<ModuleDef>,
    label_uid_ctr: u64,
}

/// The path of the modules that are being declared: the name of each, the
/// outermost first, with `::` behind it.
pub open spec fn path_of(stack: Seq<ModuleDefModel>) -> Seq<char>
    decreases stack.len(),
{
    if stack.len() == 0 {
        Seq::empty()
    } else {
        path_of(stack.drop_last()) + stack.last().name + "::"@
    }
}

/// What the pass has built: the modules that are being declared, the
/// outermost first, and the label that the next function gets.
pub struct Declared {
    pub stack: Seq<ModuleDefModel>,
    pub next_label: int,
}

/// What the pass has built after one more declaration. A function takes the
/// next label and is added to the innermost module. A module is declared
/// with what is inside it and then added to the module around it. Nothing
/// else can be declared.
pub open spec fn declared_one(state: Declared, decl: DeclarationModel) -> Result<Declared, ()>
    decreases decl, 0int,
{
    match decl {
        DeclarationModel::Module { name, decl_list } => {
            let module = ModuleDefModel {
                name,
                canon_name: path_of(state.stack) + name,
                functions: Seq::empty(),
                modules: Seq::empty(),
            };
            match declared_from(
                Declared { stack: state.stack.push(module), next_label: state.next_label },
                decl_list,
                0,
            ) {
                Err(error) => Err(error),
                Ok(inner) => if inner.stack.len() < 2 {
                    Err(())
                } else {
                    let child = inner.stack.last();
                    let outer = inner.stack.drop_last();
                    let parent = outer.last();
                    Ok(
                        Declared {
                            stack: outer.drop_last().push(
                                ModuleDefModel {
                                    modules: with_module(parent.modules, child),
                                    ..parent
                                },
                            ),
                            next_label: inner.next_label,
                        },
                    )
                },
            }
        },
        DeclarationModel::Function { .. } => if state.stack.len() == 0 || state.next_label
            >= u64::MAX {
            Err(())
        } else {
            match definition_of(state.next_label as u64, path_of(state.stack), decl) {
                Err(error) => Err(error),
                Ok(def) => {
                    let module = state.stack.last();
                    Ok(
                        Declared {
                            stack: state.stack.drop_last().push(
                                ModuleDefModel {
                                    functions: with_def(module.functions, def),
                                    ..module
                                },
                            ),
                            next_label: state.next_label + 1,
                        },
                    )
                },
            }
        },
        _ => Err(()),
    }
}

/// What the pass has built after the declarations from `from` on.
pub open spec fn declared_from(state: Declared, decls: Seq<DeclarationModel>, from: int) -> Result<
    Declared,
    (),
>
    decreases decls, decls.len() - from,
{
    if 0 <= from < decls.len() {
        match declared_one(state, decls[from]) {
            Err(error) => Err(error),
            Ok(next) => declared_from(next, decls, from + 1),
        }
    } else {
        Ok(state)
    }
}

/// Every module of a list is well formed.
pub open spec fn all_well_formed(stack: Seq<ModuleDefModel>) -> bool {
    forall|i: int| 0 <= i < stack.len() ==> well_formed(#[trigger] stack[i])
}

impl Default for Declarator {
    /// A pass that declares into a module named `root`.
    fn default() -> (declarator: Self)
        ensures
            declarator.wf(),
            declarator.next_label() == 0,
            declarator.stack() == seq![
                ModuleDefModel {
                    name: "root"@,
                    canon_name: "root"@,
                    functions: Seq::empty(),
                    modules: Seq::empty(),
                },
            ],
    {
        proof {
            reveal_strlit("");
            assert(""@ + "root"@ =~= "root"@);
        }
        Declarator::new(ModuleDef::new("", "root"))
    }
}

impl Declarator {
    /// The modules that are being declared, the outermost first.
    pub closed spec fn stack(&self) -> Seq<ModuleDefModel> {
        module_defs_model(&self.mod_def_stack)
    }

    /// The label that the next function gets.
    pub closed spec fn next_label(&self) -> int {
        self.label_uid_ctr as int
    }

    /// What the pass has built.
    pub open spec fn state(&self) -> Declared {
        Declared { stack: self.stack(), next_label: self.next_label() }
    }

    /// A module is being declared, and no name occurs twice in a module.
    pub open spec fn wf(&self) -> bool {
        self.stack().len() > 0 && all_well_formed(self.stack())
    }

    /// A pass that declares into `mod_def`.
    pub fn new(mod_def: ModuleDef) -> (declarator: Declarator)
        requires
            mod_def.wf(),
        ensures
            declarator.wf(),
            declarator.next_label() == 0,
            declarator.stack() == seq![mod_def@],
    {
        let mut mod_def_stack: Vec<ModuleDef> = Vec::new();
        mod_def_stack.push(mod_def);
        let declarator = Declarator { mod_def_stack, label_uid_ctr: 0 };
        assert(declarator.stack() =~= seq![mod_def@]);
        declarator
    }

    fn get_next_label_uid(&mut self) -> (label: u64)
        requires
            old(self).next_label() < u64::MAX,
        ensures
            label == old(self).next_label(),
            final(self).next_label() == old(self).next_label() + 1,
            final(self).stack() == old(self).stack(),
    {
        let label = self.label_uid_ctr;
        self.label_uid_ctr += 1;
        label
    }

    #[verifier::loop_isolation(false)]
    fn build_mod_path(&self) -> (path: String)
        ensures
            path@ == path_of(self.stack()),
    {
        let mut mod_path = String::new();
        let mut i: usize = 0;
        while i < self.mod_def_stack.len()
            invariant
                i <= self.mod_def_stack.len(),
                mod_path@ == path_of(self.stack().take(i as int)),
            decreases self.mod_def_stack.len() - i,
        {
            assert(self.stack().take(i + 1).drop_last() =~= self.stack().take(i as int));
            assert(self.stack()[i as int] == self.mod_def_stack[i as int].model());
            assert(self.mod_def_stack[i as int].model().name == self.mod_def_stack[i as int].name@);
            mod_path.append(self.mod_def_stack[i].name.as_str());
            mod_path.append("::");
            i += 1;
        }
        assert(self.stack().take(i as int) =~= self.stack());
        mod_path
    }

    /// The outermost module with all that was declared, and the label that
    /// the next function would get. An error while a module inside it is
    /// still being declared.
    pub fn get_result(&mut self) -> (result: Result<(ModuleDef, u64), ()>)
        ensures
            *final(self) == *old(self),
            result is Ok <==> old(self).stack().len() == 1,
            result matches Ok(built) ==> built.0@ == old(self).stack()[0] && built.1 == old(
                self,
            ).next_label(),
    {
        if self.mod_def_stack.len() != 1 {
            return Err(());
        }
        assert(self.stack()[0] == self.mod_def_stack[0].model());
        Ok((self.mod_def_stack[0].duplicate(), self.label_uid_ctr))
    }

    /// Declares the declarations of a list, in order.
    #[verifier::loop_isolation(false)]
    #[verifier::rlimit(50)]
    pub fn declare(&mut self, decl_list: &Vec<Declaration>) -> (result: Result<(), ()>)
        requires
            old(self).wf(),
        ensures
            final(self).wf(),
            match declared_from(old(self).state(), declarations_model(decl_list), 0) {
                Ok(state) => result is Ok && final(self).state() == state,
                Err(_) => result is Err,
            },
            result is Ok && labels_unique(old(self).state()) ==> labels_unique(final(self).state()),
        decreases decl_list,
    {
        let ghost decls = declarations_model(decl_list);
        proof {
            if labels_unique(self.state()) && declared_from(self.state(), decls, 0) is Ok {
                lemma_declared_from_unique(self.state(), decls, 0);
            }
        }
        let ghost expected = declared_from(self.state(), decls, 0);
        let mut i: usize = 0;
        while i < decl_list.len()
            invariant
                i <= decl_list.len(),
                self.wf(),
                expected == declared_from(self.state(), decls, i as int),
            decreases decl_list.len() - i,
        {
            let decl = &decl_list[i];
            assert(decls[i as int] == decl@);
            match decl {
                Declaration::Module { .. } => self.declare_mod(decl)?,
                Declaration::Function { .. } => self.declare_fn(decl)?,
                Declaration::Container { .. } => {
                    assert(decl.model() is Container);
                    assert(declared_one(self.state(), decl@) is Err);
                    self.declare_cont(decl)?
                },
                _ => {
                    assert(!(decl.model() is Module) && !(decl.model() is Function));
                    assert(declared_one(self.state(), decl@) is Err);
                    return Err(());
                },
            };
            i += 1;
        }
        Ok(())
    }

    #[verifier::rlimit(50)]
    fn declare_mod(&mut self, mod_decl: &Declaration) -> (result: Result<(), ()>)
        requires
            old(self).wf(),
            mod_decl is Module,
        ensures
            final(self).wf(),
            match declared_one(old(self).state(), mod_decl@) {
                Ok(state) => result is Ok && final(self).state() == state,
                Err(_) => result is Err,
            },
        decreases mod_decl,
    {
        let (name, decl_list) = match mod_decl {
            Declaration::Module { decl_list, name } => (name, decl_list),
            _ => {
                return Err(());
            },
        };
        let ghost before = self.stack();
        let mod_path = self.build_mod_path();
        let mod_def = ModuleDef::new(mod_path.as_str(), name.as_str());
        let ghost module = mod_def@;
        self.mod_def_stack.push(mod_def);
        assert(self.stack() =~= before.push(module));
        self.declare(decl_list)?;
        let ghost inner = self.stack();
        if self.mod_def_stack.len() < 2 {
            return Err(());
        }
        let child = match self.mod_def_stack.pop() {
            Some(child) => child,
            None => {
                return Err(());
            },
        };
        let mut parent = match self.mod_def_stack.pop() {
            Some(parent) => parent,
            None => {
                return Err(());
            },
        };
        assert(child@ == inner.last());
        assert(parent@ == inner.drop_last().last());
        proof {
            lemma_module_place(parent@.modules, child@.name, 0);
        }
        parent.add_module(child);
        let ghost added = parent@;
        self.mod_def_stack.push(parent);
        assert(self.stack() =~= inner.drop_last().drop_last().push(added));
        Ok(())
    }

    fn declare_cont(&mut self, _cont_decl: &Declaration) -> (result: Result<(), ()>)
        ensures
            *final(self) == *old(self),
            result is Err,
    {
        Err(())
    }

    fn declare_fn(&mut self, fn_decl: &Declaration) -> (result: Result<(), ()>)
        requires
            old(self).wf(),
            fn_decl is Function,
        ensures
            final(self).wf(),
            match declared_one(old(self).state(), fn_decl@) {
                Ok(state) => result is Ok && final(self).state() == state,
                Err(_) => result is Err,
            },
    {
        let ghost before = self.stack();
        let mod_path = self.build_mod_path();
        if self.label_uid_ctr == u64::MAX {
            return Err(());
        }
        let label_uid = self.get_next_label_uid();
        let fn_def = FunctionDef::from_decl(label_uid, mod_path.as_str(), fn_decl)?;
        let mut front_mod = match self.mod_def_stack.pop() {
            Some(front_mod) => front_mod,
            None => {
                return Err(());
            },
        };
        assert(front_mod@ == before.last());
        proof {
            lemma_def_place(front_mod@.functions, fn_def@.name, 0);
        }
        front_mod.add_function(fn_def);
        let ghost added = front_mod@;
        self.mod_def_stack.push(front_mod);
        assert(self.stack() =~= before.drop_last().push(added));
        Ok(())
    }
}

} // verus!

verus! {

/// How many of the first `upto` functions have the label `label`.
pub open spec fn functions_labelled(functions: Seq<FunctionDefModel>, label: u64, upto: int) -> nat
    decreases upto,
{
    if upto <= 0 || upto > functions.len() {
        0
    } else if functions[upto - 1].label_uid == label {
        functions_labelled(functions, label, upto - 1) + 1
    } else {
        functions_labelled(functions, label, upto - 1)
    }
}

/// How many functions of a module and of the modules inside it have the
/// label `label`.
pub open spec fn module_labelled(module: ModuleDefModel, label: u64) -> nat
    decreases module, 1int,
{
    functions_labelled(module.functions, label, module.functions.len() as int) + modules_labelled(
        module.modules,
        label,
        module.modules.len() as int,
    )
}

/// How many functions of the first `upto` modules, and of the modules
/// inside them, have the label `label`.
pub open spec fn modules_labelled(modules: Seq<ModuleDefModel>, label: u64, upto: int) -> nat
    decreases modules, upto,
{
    if upto <= 0 || upto > modules.len() {
        0
    } else {
        modules_labelled(modules, label, upto - 1) + module_labelled(modules[upto - 1], label)
    }
}

/// Every label below `next_label` is the label of at most one function in
/// the modules, and no function has another label.
pub open spec fn labels_unique(state: Declared) -> bool {
    forall|label: u64|
        #[trigger] modules_labelled(state.stack, label, state.stack.len() as int) <= if label
            < state.next_label {
            1nat
        } else {
            0nat
        }
}

/// The count over a list with one item more is the count over the list and
/// the item.
proof fn lemma_functions_pushed(functions: Seq<FunctionDefModel>, def: FunctionDefModel, label: u64)
    ensures
        functions_labelled(functions.push(def), label, functions.len() + 1int) == functions_labelled(
            functions,
            label,
            functions.len() as int,
        ) + if def.label_uid == label {
            1nat
        } else {
            0nat
        },
{
    lemma_functions_same(functions.push(def), functions, label, functions.len() as int);
}

/// Lists that agree on their first items have the same count over them.
proof fn lemma_functions_same(
    first: Seq<FunctionDefModel>,
    second: Seq<FunctionDefModel>,
    label: u64,
    upto: int,
)
    requires
        upto <= first.len(),
        upto <= second.len(),
        forall|i: int| 0 <= i < upto ==> first[i] == second[i],
    ensures
        functions_labelled(first, label, upto) == functions_labelled(second, label, upto),
    decreases upto,
{
    if upto > 0 {
        lemma_functions_same(first, second, label, upto - 1);
    }
}

/// Putting a function in the place of another changes the count by the two
/// functions.
proof fn lemma_functions_updated(
    functions: Seq<FunctionDefModel>,
    place: int,
    def: FunctionDefModel,
    label: u64,
    upto: int,
)
    requires
        0 <= place < functions.len(),
        0 <= upto <= functions.len(),
    ensures
        functions_labelled(functions.update(place, def), label, upto) + if place < upto
            && functions[place].label_uid == label {
            1nat
        } else {
            0nat
        } == functions_labelled(functions, label, upto) + if place < upto && def.label_uid
            == label {
            1nat
        } else {
            0nat
        },
    decreases upto,
{
    if upto > 0 {
        lemma_functions_updated(functions, place, def, label, upto - 1);
    }
}

/// Adding a function changes the count of its label by at most one and the
/// count of no other label upwards.
proof fn lemma_with_def_labelled(functions: Seq<FunctionDefModel>, def: FunctionDefModel, label: u64)
    ensures
        functions_labelled(
            with_def(functions, def),
            label,
            with_def(functions, def).len() as int,
        ) <= functions_labelled(functions, label, functions.len() as int) + if def.label_uid
            == label {
            1nat
        } else {
            0nat
        },
{
    let place = crate::codegen::def::module::def_place(functions, def.name, 0);
    lemma_def_place(functions, def.name, 0);
    if place < functions.len() {
        lemma_functions_updated(functions, place, def, label, functions.len() as int);
    } else {
        lemma_functions_pushed(functions, def, label);
    }
}

/// Lists of modules that agree on their first items have the same count
/// over them.
proof fn lemma_modules_same(
    first: Seq<ModuleDefModel>,
    second: Seq<ModuleDefModel>,
    label: u64,
    upto: int,
)
    requires
        upto <= first.len(),
        upto <= second.len(),
        forall|i: int| 0 <= i < upto ==> first[i] == second[i],
    ensures
        modules_labelled(first, label, upto) == modules_labelled(second, label, upto),
    decreases upto,
{
    if upto > 0 {
        lemma_modules_same(first, second, label, upto - 1);
    }
}

/// Putting a module in the place of another changes the count by the two
/// modules.
proof fn lemma_modules_updated(
    modules: Seq<ModuleDefModel>,
    place: int,
    module: ModuleDefModel,
    label: u64,
    upto: int,
)
    requires
        0 <= place < modules.len(),
        0 <= upto <= modules.len(),
    ensures
        modules_labelled(modules.update(place, module), label, upto) + if place < upto {
            module_labelled(modules[place], label)
        } else {
            0nat
        } == modules_labelled(modules, label, upto) + if place < upto {
            module_labelled(module, label)
        } else {
            0nat
        },
    decreases upto,
{
    if upto > 0 {
        lemma_modules_updated(modules, place, module, label, upto - 1);
    }
}

/// Adding a module to a list adds at most its count to the count of the
/// list.
proof fn lemma_with_module_labelled(modules: Seq<ModuleDefModel>, module: ModuleDefModel, label: u64)
    ensures
        modules_labelled(
            with_module(modules, module),
            label,
            with_module(modules, module).len() as int,
        ) <= modules_labelled(modules, label, modules.len() as int) + module_labelled(
            module,
            label,
        ),
{
    let place = crate::codegen::def::module::module_place(modules, module.name, 0);
    lemma_module_place(modules, module.name, 0);
    if place < modules.len() {
        lemma_modules_updated(modules, place, module, label, modules.len() as int);
    } else {
        lemma_modules_same(modules.push(module), modules, label, modules.len() as int);
    }
}

/// The count over the modules that are being declared is the count over
/// all but the innermost and the count of the innermost.
proof fn lemma_stack_split(stack: Seq<ModuleDefModel>, label: u64)
    requires
        stack.len() > 0,
    ensures
        modules_labelled(stack, label, stack.len() as int) == modules_labelled(
            stack.drop_last(),
            label,
            stack.len() - 1,
        ) + module_labelled(stack.last(), label),
{
    lemma_modules_same(stack, stack.drop_last(), label, stack.len() - 1);
}

/// The count over modules with one module more is the count over the
/// modules and the count of that module.
proof fn lemma_stack_pushed(stack: Seq<ModuleDefModel>, module: ModuleDefModel, label: u64)
    ensures
        modules_labelled(stack.push(module), label, stack.len() + 1int) == modules_labelled(
            stack,
            label,
            stack.len() as int,
        ) + module_labelled(module, label),
{
    lemma_stack_split(stack.push(module), label);
    assert(stack.push(module).drop_last() =~= stack);
}

/// One more declaration keeps the labels unique: a function takes the next
/// label, which no function has.
pub proof fn lemma_declared_one_unique(state: Declared, decl: DeclarationModel)
    requires
        labels_unique(state),
        0 <= state.next_label,
        declared_one(state, decl) is Ok,
    ensures
        labels_unique(declared_one(state, decl)->Ok_0),
        state.next_label <= declared_one(state, decl)->Ok_0.next_label,
    decreases decl, 0int,
{
    let after = declared_one(state, decl)->Ok_0;
    match decl {
        DeclarationModel::Module { name, decl_list } => {
            let module = ModuleDefModel {
                name,
                canon_name: path_of(state.stack) + name,
                functions: Seq::empty(),
                modules: Seq::empty(),
            };
            let begun = Declared { stack: state.stack.push(module), next_label: state.next_label };
            assert forall|label: u64|
                #[trigger] modules_labelled(begun.stack, label, begun.stack.len() as int)
                    <= if label < begun.next_label {
                    1nat
                } else {
                    0nat
                } by {
                lemma_stack_pushed(state.stack, module, label);
                assert(modules_labelled(state.stack, label, state.stack.len() as int) <= if label
                    < state.next_label {
                    1nat
                } else {
                    0nat
                });
            }
            lemma_declared_from_unique(begun, decl_list, 0);
            let inner = declared_from(begun, decl_list, 0)->Ok_0;
            let child = inner.stack.last();
            let outer = inner.stack.drop_last();
            let parent = outer.last();
            let joined = ModuleDefModel { modules: with_module(parent.modules, child), ..parent };
            assert forall|label: u64|
                #[trigger] modules_labelled(after.stack, label, after.stack.len() as int)
                    <= if label < after.next_label {
                    1nat
                } else {
                    0nat
                } by {
                lemma_stack_split(inner.stack, label);
                lemma_stack_split(outer, label);
                lemma_stack_pushed(outer.drop_last(), joined, label);
                lemma_with_module_labelled(parent.modules, child, label);
                assert(modules_labelled(inner.stack, label, inner.stack.len() as int) <= if label
                    < inner.next_label {
                    1nat
                } else {
                    0nat
                });
            }
        },
        DeclarationModel::Function { .. } => {
            let def = definition_of(state.next_label as u64, path_of(state.stack), decl)->Ok_0;
            let module = state.stack.last();
            let joined = ModuleDefModel { functions: with_def(module.functions, def), ..module };
            assert forall|label: u64|
                #[trigger] modules_labelled(after.stack, label, after.stack.len() as int)
                    <= if label < after.next_label {
                    1nat
                } else {
                    0nat
                } by {
                lemma_stack_split(state.stack, label);
                lemma_stack_pushed(state.stack.drop_last(), joined, label);
                lemma_with_def_labelled(module.functions, def, label);
                assert(modules_labelled(state.stack, label, state.stack.len() as int) <= if label
                    < state.next_label {
                    1nat
                } else {
                    0nat
                });
            }
        },
        _ => {},
    }
}

/// The declarations of a list keep the labels unique.
pub proof fn lemma_declared_from_unique(state: Declared, decls: Seq<DeclarationModel>, from: int)
    requires
        labels_unique(state),
        0 <= state.next_label,
        declared_from(state, decls, from) is Ok,
    ensures
        labels_unique(declared_from(state, decls, from)->Ok_0),
        state.next_label <= declared_from(state, decls, from)->Ok_0.next_label,
    decreases decls, decls.len() - from,
{
    if 0 <= from < decls.len() {
        lemma_declared_one_unique(state, decls[from]);
        lemma_declared_from_unique(declared_one(state, decls[from])->Ok_0, decls, from + 1);
    }
}

/// Every function of a compilation unit has a label of its own: after the
/// declarations of a list are declared into a module without functions, no
/// two functions in the module, or in the modules inside it, have the same
/// label, and every label is below the label that comes next.
pub proof fn lemma_labels_are_unique(root: ModuleDefModel, decls: Seq<DeclarationModel>)
    requires
        root.functions.len() == 0,
        root.modules.len() == 0,
        declared_from(Declared { stack: seq![root], next_label: 0 }, decls, 0) is Ok,
    ensures
        labels_unique(declared_from(Declared { stack: seq![root], next_label: 0 }, decls, 0)->Ok_0),
{
    let state = Declared { stack: seq![root], next_label: 0 };
    assert forall|label: u64|
        #[trigger] modules_labelled(state.stack, label, state.stack.len() as int) <= 0nat by {
        lemma_stack_split(state.stack, label);
        assert(state.stack.drop_last() =~= Seq::<ModuleDefModel>::empty());
    }
    lemma_declared_from_unique(state, decls, 0);
}

} // verus!
